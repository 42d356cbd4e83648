//! The token source: an endless supply of authorization tokens.
//!
//! A token is a random UUID. It says nothing of the transaction it will be
//! paired with: a worker takes whichever token is next in the queue. The
//! source has no end of its own; it gives out tokens in batches for as long as
//! the token queue is open, and stops when it is told to or when it finds the
//! queue closed.

use vstd::prelude::*;
use crate::cola::{Cola, ColaView};
use crate::identificador::{es_uuid_v4, nuevo_uuid};
use crate::transaccion::HashAutorizacion;

verus! {

/// The token source.
pub struct ProveedorExterno {
    apagado: bool,
}

impl ProveedorExterno {
    /// Whether the source was told to stop.
    pub closed spec fn apagado(&self) -> bool {
        self.apagado
    }

    /// Starts a token source and the queue that it fills, empty and open.
    pub fn iniciar() -> (r: (ProveedorExterno, Cola<HashAutorizacion>))
        ensures
            !r.0.apagado(),
            r.1@ == ColaView::<HashAutorizacion>::nueva(),
    {
        (ProveedorExterno { apagado: false }, Cola::new())
    }

    /// Whether the source was told to stop.
    pub fn esta_apagado(&self) -> (apagado: bool)
        ensures
            apagado == self.apagado(),
    {
        self.apagado
    }

    /// Tells the source to stop. Telling it twice is telling it once.
    pub fn cerrar(&mut self)
        ensures
            final(self).apagado(),
    {
        self.apagado = true;
    }

    /// Sends `cantidad` fresh tokens to the queue and returns how many were
    /// sent. A source that was told to stop sends none and closes the queue.
    /// If the queue is closed already no consumer is left: nothing is sent
    /// and the source is done.
    pub fn crear_hashes(&self, clientes: &mut Cola<HashAutorizacion>, cantidad: usize) -> (creados:
        usize)
        ensures
            self.apagado() ==> creados == 0 && final(clientes)@ == old(clientes)@.tras_cerrar(),
            !self.apagado() && old(clientes)@.cerrada ==> creados == 0 && final(clientes)@ == old(
                clientes,
            )@,
            !self.apagado() && !old(clientes)@.cerrada ==> {
                &&& creados == cantidad
                &&& final(clientes)@.cerrada == old(clientes)@.cerrada
                &&& final(clientes)@.productores == old(clientes)@.productores
                &&& final(clientes)@.elementos.len() == old(clientes)@.elementos.len() + cantidad
                &&& final(clientes)@.elementos.subrange(0, old(clientes)@.elementos.len() as int)
                    == old(clientes)@.elementos
                &&& forall|i: int|
                    old(clientes)@.elementos.len() <= i < final(clientes)@.elementos.len()
                        ==> es_uuid_v4(#[trigger] final(clientes)@.elementos[i])
            },
    {
        if self.apagado {
            clientes.cerrar();
            return 0;
        }
        if clientes.esta_cerrada() {
            return 0;
        }
        let mut creados: usize = 0;
        while creados < cantidad
            invariant
                creados <= cantidad,
                clientes@.cerrada == old(clientes)@.cerrada,
                !clientes@.cerrada,
                clientes@.productores == old(clientes)@.productores,
                clientes@.elementos.len() == old(clientes)@.elementos.len() + creados,
                clientes@.elementos.subrange(0, old(clientes)@.elementos.len() as int) == old(
                    clientes,
                )@.elementos,
                forall|i: int|
                    old(clientes)@.elementos.len() <= i < clientes@.elementos.len() ==> es_uuid_v4(
                        #[trigger] clientes@.elementos[i],
                    ),
            decreases cantidad - creados,
        {
            let hash = nuevo_uuid();
            let _ = clientes.enviar(hash);
            creados = creados + 1;
        }
        creados
    }
}

} // verus!
