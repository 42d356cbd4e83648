//! The queue that joins two stages of the pipeline.
//!
//! A queue delivers its items first in, first out, each to exactly one
//! receiver. It can be closed: a closed queue takes no new item, and hands out
//! what it still holds before it reports that it is closed. Besides an
//! explicit close, a queue counts the producers that registered with it and
//! closes by itself when the last of them retires, so that a pool of workers
//! closes its output once, when all of them are done.

use vstd::prelude::*;
use std::collections::VecDeque;

verus! {

/// What a queue is, to the contracts: the items it holds, oldest first, the
/// number of registered producers, and whether it is closed.
pub struct ColaView<T> {
    pub elementos: Seq<T>,
    pub productores: nat,
    pub cerrada: bool,
}

/// What a receiver gets from a queue.
#[derive(Debug)]
pub enum Recepcion<T> {
    /// The oldest item of the queue.
    Elemento(T),
    /// Nothing yet: the queue is empty and still open.
    Vacia,
    /// Nothing ever again: the queue is empty and closed.
    Cerrada,
}

impl<T> ColaView<T> {
    /// A queue that was just made: empty, open, without producers.
    pub open spec fn nueva() -> Self {
        ColaView { elementos: Seq::empty(), productores: 0, cerrada: false }
    }

    /// What the next receive returns.
    pub open spec fn frente(self) -> Recepcion<T> {
        if self.elementos.len() > 0 {
            Recepcion::Elemento(self.elementos[0])
        } else if self.cerrada {
            Recepcion::Cerrada
        } else {
            Recepcion::Vacia
        }
    }

    /// The queue after a receive: without its oldest item, if it had one.
    pub open spec fn tras_recibir(self) -> Self {
        if self.elementos.len() > 0 {
            ColaView { elementos: self.elementos.drop_first(), ..self }
        } else {
            self
        }
    }

    /// The queue after `x` was sent to it: a closed queue refuses the item.
    pub open spec fn tras_enviar(self, x: T) -> Self {
        if self.cerrada {
            self
        } else {
            ColaView { elementos: self.elementos.push(x), ..self }
        }
    }

    /// The queue after one more producer registered.
    pub open spec fn tras_registrar(self) -> Self {
        ColaView { productores: self.productores + 1, ..self }
    }

    /// The queue after a producer retired: the last one to go closes it.
    pub open spec fn tras_retirar(self) -> Self {
        if self.productores == 0 {
            self
        } else {
            ColaView {
                productores: (self.productores - 1) as nat,
                cerrada: self.cerrada || self.productores == 1,
                ..self
            }
        }
    }

    /// The queue after an explicit close.
    pub open spec fn tras_cerrar(self) -> Self {
        ColaView { cerrada: true, ..self }
    }
}

/// A first-in, first-out queue with a close signal and a count of producers.
pub struct Cola<T> {
    elementos: VecDeque<T>,
    productores: usize,
    cerrada: bool,
}

impl<T> View for Cola<T> {
    type V = ColaView<T>;

    closed spec fn view(&self) -> ColaView<T> {
        ColaView {
            elementos: self.elementos@,
            productores: self.productores as nat,
            cerrada: self.cerrada,
        }
    }
}

impl<T> Cola<T> {
    /// An empty, open queue with no producer registered.
    pub fn new() -> (cola: Self)
        ensures
            cola@ == ColaView::<T>::nueva(),
    {
        Cola { elementos: VecDeque::new(), productores: 0, cerrada: false }
    }

    /// Number of items waiting in the queue.
    pub fn len(&self) -> (n: usize)
        ensures
            n == self@.elementos.len(),
    {
        self.elementos.len()
    }

    /// Whether no item is waiting.
    pub fn esta_vacia(&self) -> (vacia: bool)
        ensures
            vacia == (self@.elementos.len() == 0),
    {
        self.elementos.len() == 0
    }

    /// Whether the queue is closed.
    pub fn esta_cerrada(&self) -> (cerrada: bool)
        ensures
            cerrada == self@.cerrada,
    {
        self.cerrada
    }

    /// Number of producers registered and not yet retired.
    pub fn productores(&self) -> (n: usize)
        ensures
            n == self@.productores,
    {
        self.productores
    }

    /// Registers one more producer. Registering does not reopen a closed
    /// queue.
    pub fn registrar_productor(&mut self)
        requires
            old(self)@.productores < usize::MAX,
        ensures
            final(self)@ == old(self)@.tras_registrar(),
    {
        self.productores = self.productores + 1;
    }

    /// Retires one producer. When the last one retires the queue closes; with
    /// no producer registered nothing changes.
    pub fn retirar_productor(&mut self)
        ensures
            final(self)@ == old(self)@.tras_retirar(),
    {
        if self.productores > 0 {
            self.productores = self.productores - 1;
            if self.productores == 0 {
                self.cerrada = true;
            }
        }
    }

    /// Closes the queue. Closing a closed queue changes nothing.
    pub fn cerrar(&mut self)
        ensures
            final(self)@ == old(self)@.tras_cerrar(),
    {
        self.cerrada = true;
    }

    /// Sends `x` to the back of the queue. A closed queue hands the item back
    /// as the error and stays as it was.
    pub fn enviar(&mut self, x: T) -> (r: Result<(), T>)
        ensures
            final(self)@ == old(self)@.tras_enviar(x),
            old(self)@.cerrada ==> r == Err::<(), T>(x),
            !old(self)@.cerrada ==> r == Ok::<(), T>(()),
    {
        if self.cerrada {
            Err(x)
        } else {
            self.elementos.push_back(x);
            Ok(())
        }
    }

    /// Takes the oldest item of the queue, or says why there is none.
    pub fn recibir(&mut self) -> (r: Recepcion<T>)
        ensures
            r == old(self)@.frente(),
            final(self)@ == old(self)@.tras_recibir(),
    {
        match self.elementos.pop_front() {
            Some(x) => Recepcion::Elemento(x),
            None => {
                if self.cerrada {
                    Recepcion::Cerrada
                } else {
                    Recepcion::Vacia
                }
            },
        }
    }
}

/// Closing twice is closing once.
pub proof fn cerrar_es_idempotente<T>(cola: ColaView<T>)
    ensures
        cola.tras_cerrar().tras_cerrar() == cola.tras_cerrar(),
{
}

/// A closed queue stays closed, whatever is done to it next, and takes no
/// further item.
pub proof fn cerrada_no_se_reabre<T>(cola: ColaView<T>, x: T)
    requires
        cola.cerrada,
    ensures
        cola.tras_enviar(x) == cola,
        cola.tras_recibir().cerrada,
        cola.tras_registrar().cerrada,
        cola.tras_retirar().cerrada,
        cola.tras_cerrar() == cola,
{
}

/// With `n` producers registered on an open queue, it closes exactly when the
/// `n`-th of them retires.
pub proof fn cierra_el_ultimo_productor<T>(cola: ColaView<T>)
    requires
        !cola.cerrada,
        cola.productores > 0,
    ensures
        cola.tras_retirar().cerrada <==> cola.productores == 1,
        cola.tras_retirar().productores == cola.productores - 1,
        cola.tras_retirar().elementos == cola.elementos,
{
}

} // verus!
