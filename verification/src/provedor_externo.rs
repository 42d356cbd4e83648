//! A token source with a switch.
//!
//! This source hands out one fixed token, for runs in which the tokens must
//! be known beforehand. It can be switched off from outside: once off, it
//! closes the token queue the next time it is asked for tokens, so that the
//! workers waiting on the queue learn that none will come.

use vstd::prelude::*;
use crate::cola::{Cola, ColaView};
use crate::transaccion::HashAutorizacion;

verus! {

/// The token that this source hands out.
pub const HASH_FIJO: HashAutorizacion = 2;

/// A token source that can be switched off.
pub struct ProvedorExterno {
    apagado: bool,
}

impl ProvedorExterno {
    /// Whether the source was switched off.
    pub closed spec fn apagado(&self) -> bool {
        self.apagado
    }

    /// A source that is switched on.
    pub fn new() -> (proveedor: Self)
        ensures
            !proveedor.apagado(),
    {
        Self { apagado: false }
    }

    /// Whether the source was switched off.
    pub fn esta_apagado(&self) -> (apagado: bool)
        ensures
            apagado == self.apagado(),
    {
        self.apagado
    }

    /// Sends `cantidad` tokens to the queue and returns how many were sent.
    /// A source that was switched off sends none and closes the queue. If the
    /// queue is closed already no consumer is left, and nothing is sent.
    pub fn crear_hashes(&self, clientes: &mut Cola<HashAutorizacion>, cantidad: usize) -> (creados:
        usize)
        ensures
            self.apagado() ==> creados == 0 && final(clientes)@ == old(clientes)@.tras_cerrar(),
            !self.apagado() && old(clientes)@.cerrada ==> creados == 0 && final(clientes)@ == old(
                clientes,
            )@,
            !self.apagado() && !old(clientes)@.cerrada ==> creados == cantidad && final(clientes)@
                == (ColaView {
                elementos: old(clientes)@.elementos + Seq::new(
                    cantidad as nat,
                    |i: int| HASH_FIJO,
                ),
                ..old(clientes)@
            }),
    {
        if self.apagado {
            clientes.cerrar();
            return 0;
        }
        if clientes.esta_cerrada() {
            return 0;
        }
        let mut creados: usize = 0;
        while creados < cantidad
            invariant
                creados <= cantidad,
                !clientes@.cerrada,
                clientes@ == (ColaView {
                    elementos: old(clientes)@.elementos + Seq::new(
                        creados as nat,
                        |i: int| HASH_FIJO,
                    ),
                    ..old(clientes)@
                }),
            decreases cantidad - creados,
        {
            let _ = clientes.enviar(HASH_FIJO);
            creados = creados + 1;
            assert(Seq::new((creados - 1) as nat, |i: int| HASH_FIJO).push(HASH_FIJO) == Seq::new(
                creados as nat,
                |i: int| HASH_FIJO,
            ));
        }
        creados
    }

    /// Switches the source off. Switching it off twice is switching it off
    /// once.
    pub fn cerrar(&mut self)
        ensures
            final(self).apagado(),
    {
        self.apagado = true;
    }
}

} // verus!
