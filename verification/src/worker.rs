//! The authorization workers.
//!
//! A worker takes a transaction from the queue of its kind, then a token from
//! the token queue, pairs them and sends the authorized transaction to the
//! queue that all workers share. Between the two receives it holds the
//! transaction. It finishes when its input is closed and drained; it gives up,
//! and the transaction it holds with it, when the token queue is closed and
//! drained.
//!
//! Workers compete for both queues. Which of them moves next is for the
//! driver to say: every function here advances by whole steps.

use vstd::prelude::*;
use crate::cola::{Cola, ColaView, Recepcion};
use crate::transaccion::{HashAutorizacion, Transaccion, TransaccionAutorizada};

verus! {

/// The kind of transaction that a pool of workers authorizes.
#[derive(Debug, Clone, Copy, PartialEq, Eq, Structural)]
pub enum TipoWorker {
    CashIn,
    CashOut,
}

/// Where a worker stands in its cycle.
#[derive(Debug)]
pub enum EstadoWorker {
    /// Holding nothing; the next step takes a transaction.
    Libre,
    /// Holding a transaction; the next step takes a token for it.
    Esperando(Transaccion),
    /// Finished: the input was closed and drained.
    Terminado,
    /// Gave up: the token queue closed while this transaction was held, and
    /// the transaction is lost.
    Abortado(Transaccion),
}

/// How a step ended.
#[derive(Debug, Clone, Copy, PartialEq, Eq, Structural)]
pub enum Paso {
    /// The worker took a transaction or sent an authorized one.
    Avanzo,
    /// The queue that the worker needs next is empty and still open.
    Bloqueado,
    /// The worker has finished.
    Termino,
    /// The worker has given up for want of tokens.
    Aborto,
}

impl EstadoWorker {
    /// Whether the worker has still steps to take.
    pub open spec fn activo(self) -> bool {
        self is Libre || self is Esperando
    }
}

/// The authorization stage as one worker sees it: the worker's own state and
/// the three queues it touches.
pub struct Autorizacion {
    pub estado: EstadoWorker,
    pub transacciones: ColaView<Transaccion>,
    pub hashes: ColaView<HashAutorizacion>,
    pub autorizadas: ColaView<TransaccionAutorizada>,
}

impl Autorizacion {
    /// Whether the next step of the worker sends to the output queue.
    pub open spec fn envia(self) -> bool {
        self.estado is Esperando && self.hashes.elementos.len() > 0
    }

    /// How the next step of the worker ends.
    pub open spec fn resultado_paso(self) -> Paso {
        match self.estado {
            EstadoWorker::Libre => match self.transacciones.frente() {
                Recepcion::Elemento(_) => Paso::Avanzo,
                Recepcion::Vacia => Paso::Bloqueado,
                Recepcion::Cerrada => Paso::Termino,
            },
            EstadoWorker::Esperando(_) => match self.hashes.frente() {
                Recepcion::Elemento(_) => Paso::Avanzo,
                Recepcion::Vacia => Paso::Bloqueado,
                Recepcion::Cerrada => Paso::Aborto,
            },
            EstadoWorker::Terminado => Paso::Termino,
            EstadoWorker::Abortado(_) => Paso::Aborto,
        }
    }

    /// The stage after the next step of the worker.
    pub open spec fn tras_paso(self) -> Autorizacion {
        match self.estado {
            EstadoWorker::Libre => match self.transacciones.frente() {
                Recepcion::Elemento(transaccion) => Autorizacion {
                    estado: EstadoWorker::Esperando(transaccion),
                    transacciones: self.transacciones.tras_recibir(),
                    ..self
                },
                Recepcion::Vacia => self,
                Recepcion::Cerrada => Autorizacion {
                    estado: EstadoWorker::Terminado,
                    autorizadas: self.autorizadas.tras_retirar(),
                    ..self
                },
            },
            EstadoWorker::Esperando(transaccion) => match self.hashes.frente() {
                Recepcion::Elemento(hash) => Autorizacion {
                    estado: EstadoWorker::Libre,
                    hashes: self.hashes.tras_recibir(),
                    autorizadas: self.autorizadas.tras_enviar(
                        TransaccionAutorizada { transaccion, autorizacion: hash },
                    ),
                    ..self
                },
                Recepcion::Vacia => self,
                Recepcion::Cerrada => Autorizacion {
                    estado: EstadoWorker::Abortado(transaccion),
                    autorizadas: self.autorizadas.tras_retirar(),
                    ..self
                },
            },
            EstadoWorker::Terminado => self,
            EstadoWorker::Abortado(_) => self,
        }
    }

    /// Steps that the worker can still take before it blocks or ends, at
    /// most.
    pub open spec fn alcance(self) -> nat {
        self.transacciones.elementos.len() + self.hashes.elementos.len()
    }

    /// Whether the worker sends to the output queue before it next blocks or
    /// ends.
    pub open spec fn envia_antes_de_parar(self) -> bool {
        self.hashes.elementos.len() > 0 && (self.estado is Esperando || (self.estado is Libre
            && self.transacciones.elementos.len() > 0))
    }

    /// The stage after the worker has taken steps until one of them did not
    /// advance.
    pub open spec fn tras_procesar(self) -> Autorizacion
        decreases self.alcance(),
    {
        if self.resultado_paso() == Paso::Avanzo {
            self.tras_paso().tras_procesar()
        } else {
            self.tras_paso()
        }
    }

    /// How the run of steps ends.
    pub open spec fn resultado_procesar(self) -> Paso
        decreases self.alcance(),
    {
        if self.resultado_paso() == Paso::Avanzo {
            self.tras_paso().resultado_procesar()
        } else {
            self.resultado_paso()
        }
    }
}

/// The transactions that a worker has still to pair: the one it holds, if it
/// holds one, then those of its input.
pub open spec fn por_emparejar(estado: EstadoWorker, transacciones: Seq<Transaccion>) -> Seq<
    Transaccion,
> {
    match estado {
        EstadoWorker::Esperando(transaccion) => seq![transaccion] + transacciones,
        _ => transacciones,
    }
}

/// The pairs made of the transactions and the tokens taken in step, first
/// with first, for as long as both last.
pub open spec fn emparejadas(
    transacciones: Seq<Transaccion>,
    hashes: Seq<HashAutorizacion>,
) -> Seq<TransaccionAutorizada> {
    Seq::new(
        if transacciones.len() <= hashes.len() {
            transacciones.len()
        } else {
            hashes.len()
        },
        |i: int| TransaccionAutorizada { transaccion: transacciones[i], autorizacion: hashes[i] },
    )
}

impl Autorizacion {
    /// Where a run of steps of a worker that has still steps to take leaves
    /// the stage, said at once. With `n` transactions to pair and `m` tokens,
    /// the worker sends the first `n` or `m` pairs, whichever is less, in
    /// order. If the tokens last, it ends free on an open input and finished
    /// on a closed one. If they do not, it is left holding the first
    /// transaction without a token, and has given up if the token queue is
    /// closed. A worker that finishes or gives up retires from the output.
    pub open spec fn tras_emparejar(self) -> Autorizacion {
        let pendientes = por_emparejar(self.estado, self.transacciones.elementos);
        let tokens = self.hashes.elementos;
        let salida = ColaView {
            elementos: self.autorizadas.elementos + emparejadas(pendientes, tokens),
            ..self.autorizadas
        };
        if pendientes.len() <= tokens.len() {
            Autorizacion {
                estado: if self.transacciones.cerrada {
                    EstadoWorker::Terminado
                } else {
                    EstadoWorker::Libre
                },
                transacciones: ColaView { elementos: Seq::empty(), ..self.transacciones },
                hashes: ColaView {
                    elementos: tokens.subrange(pendientes.len() as int, tokens.len() as int),
                    ..self.hashes
                },
                autorizadas: if self.transacciones.cerrada {
                    salida.tras_retirar()
                } else {
                    salida
                },
            }
        } else {
            Autorizacion {
                estado: if self.hashes.cerrada {
                    EstadoWorker::Abortado(pendientes[tokens.len() as int])
                } else {
                    EstadoWorker::Esperando(pendientes[tokens.len() as int])
                },
                transacciones: ColaView {
                    elementos: pendientes.subrange(tokens.len() as int + 1, pendientes.len() as int),
                    ..self.transacciones
                },
                hashes: ColaView { elementos: Seq::empty(), ..self.hashes },
                autorizadas: if self.hashes.cerrada {
                    salida.tras_retirar()
                } else {
                    salida
                },
            }
        }
    }
}

/// A run of steps pairs the transactions with the tokens in the order in which
/// both stand in their queues: what `tras_procesar` reaches step by step is
/// what `tras_emparejar` says at once.
pub proof fn procesar_empareja_en_orden(etapa: Autorizacion)
    requires
        etapa.estado.activo(),
        etapa.envia_antes_de_parar() ==> !etapa.autorizadas.cerrada,
    ensures
        etapa.tras_procesar() == etapa.tras_emparejar(),
        etapa.resultado_procesar() == match etapa.tras_emparejar().estado {
            EstadoWorker::Libre => Paso::Bloqueado,
            EstadoWorker::Esperando(_) => Paso::Bloqueado,
            EstadoWorker::Terminado => Paso::Termino,
            EstadoWorker::Abortado(_) => Paso::Aborto,
        },
    decreases etapa.alcance(),
{
    let pendientes = por_emparejar(etapa.estado, etapa.transacciones.elementos);
    let tokens = etapa.hashes.elementos;
    let directa = etapa.tras_emparejar();
    if etapa.resultado_paso() == Paso::Avanzo {
        let medio = etapa.tras_paso();
        let pendientes_medio = por_emparejar(medio.estado, medio.transacciones.elementos);
        procesar_empareja_en_orden(medio);
        let fin = medio.tras_emparejar();
        match etapa.estado {
            EstadoWorker::Libre => {
                assert(pendientes_medio == pendientes);
                assert(fin.autorizadas.elementos == directa.autorizadas.elementos);
            },
            EstadoWorker::Esperando(transaccion) => {
                let par = TransaccionAutorizada { transaccion, autorizacion: tokens[0] };
                assert(pendientes_medio == pendientes.drop_first());
                assert(medio.hashes.elementos == tokens.drop_first());
                assert(emparejadas(pendientes, tokens) == seq![par] + emparejadas(
                    pendientes_medio,
                    medio.hashes.elementos,
                ));
                assert(fin.autorizadas.elementos == directa.autorizadas.elementos);
                assert(fin.hashes.elementos == directa.hashes.elementos);
                assert(fin.transacciones.elementos == directa.transacciones.elementos);
            },
            _ => {},
        }
        assert(fin == directa);
    } else {
        let fin = etapa.tras_paso();
        assert(emparejadas(pendientes, tokens) == Seq::<TransaccionAutorizada>::empty());
        assert(fin.autorizadas.elementos == directa.autorizadas.elementos);
        assert(fin.hashes.elementos == directa.hashes.elementos);
        assert(fin.transacciones.elementos == directa.transacciones.elementos);
        assert(fin == directa);
    }
}

/// One authorization worker.
#[derive(Debug)]
pub struct Worker {
    tipo: TipoWorker,
    id: u32,
    estado: EstadoWorker,
}

/// What a worker is, to the contracts: the pool it belongs to, its number in
/// the pool, and where it stands in its cycle.
pub struct WorkerView {
    pub tipo: TipoWorker,
    pub id: u32,
    pub estado: EstadoWorker,
}

impl View for Worker {
    type V = WorkerView;

    closed spec fn view(&self) -> WorkerView {
        WorkerView { tipo: self.tipo, id: self.id, estado: self.estado }
    }
}

impl Worker {

    /// A worker of the pool `tipo`, ready to take its first transaction and
    /// registered as a producer of the output queue.
    pub fn iniciar(tipo: TipoWorker, id: u32, autorizadas: &mut Cola<TransaccionAutorizada>) -> (worker: Self)
        requires
            old(autorizadas)@.productores < usize::MAX,
        ensures
            worker@ == (WorkerView { tipo, id, estado: EstadoWorker::Libre }),
            final(autorizadas)@ == old(autorizadas)@.tras_registrar(),
    {
        autorizadas.registrar_productor();
        Worker { tipo, id, estado: EstadoWorker::Libre }
    }

    /// The pool that the worker belongs to.
    pub fn tipo(&self) -> (tipo: TipoWorker)
        ensures
            tipo == self@.tipo,
    {
        self.tipo
    }

    /// The number of the worker in its pool.
    pub fn id(&self) -> (id: u32)
        ensures
            id == self@.id,
    {
        self.id
    }

    /// Whether the worker has still steps to take.
    pub fn esta_activo(&self) -> (activo: bool)
        ensures
            activo == self@.estado.activo(),
    {
        match &self.estado {
            EstadoWorker::Libre => true,
            EstadoWorker::Esperando(_) => true,
            EstadoWorker::Terminado => false,
            EstadoWorker::Abortado(_) => false,
        }
    }

    /// The transaction that the worker holds or has lost, if any.
    pub fn retenida(&self) -> (transaccion: Option<&Transaccion>)
        ensures
            match self@.estado {
                EstadoWorker::Esperando(t) => transaccion == Some(&t),
                EstadoWorker::Abortado(t) => transaccion == Some(&t),
                _ => transaccion is None,
            },
    {
        match &self.estado {
            EstadoWorker::Esperando(t) => Some(t),
            EstadoWorker::Abortado(t) => Some(t),
            _ => None,
        }
    }

    /// Whether the worker gave up for want of tokens.
    pub fn aborto(&self) -> (aborto: bool)
        ensures
            aborto == (self@.estado is Abortado),
    {
        match &self.estado {
            EstadoWorker::Abortado(_) => true,
            _ => false,
        }
    }

    /// Takes one step: a free worker takes a transaction, a worker that holds
    /// one takes a token and sends the pair. A worker that finds its queue
    /// closed and drained retires from the output queue and stays finished.
    ///
    /// The output queue must be open if this step sends to it.
    pub fn paso(
        &mut self,
        transacciones: &mut Cola<Transaccion>,
        hashes: &mut Cola<HashAutorizacion>,
        autorizadas: &mut Cola<TransaccionAutorizada>,
    ) -> (r: Paso)
        requires
            (Autorizacion {
                estado: old(self)@.estado,
                transacciones: old(transacciones)@,
                hashes: old(hashes)@,
                autorizadas: old(autorizadas)@,
            }).envia() ==> !old(autorizadas)@.cerrada,
        ensures
            (Autorizacion {
                estado: final(self)@.estado,
                transacciones: final(transacciones)@,
                hashes: final(hashes)@,
                autorizadas: final(autorizadas)@,
            }) == (Autorizacion {
                estado: old(self)@.estado,
                transacciones: old(transacciones)@,
                hashes: old(hashes)@,
                autorizadas: old(autorizadas)@,
            }).tras_paso(),
            r == (Autorizacion {
                estado: old(self)@.estado,
                transacciones: old(transacciones)@,
                hashes: old(hashes)@,
                autorizadas: old(autorizadas)@,
            }).resultado_paso(),
            final(self)@.tipo == old(self)@.tipo,
            final(self)@.id == old(self)@.id,
    {
        let mut estado = EstadoWorker::Terminado;
        std::mem::swap(&mut self.estado, &mut estado);
        match estado {
            EstadoWorker::Libre => match transacciones.recibir() {
                Recepcion::Elemento(transaccion) => {
                    self.estado = EstadoWorker::Esperando(transaccion);
                    Paso::Avanzo
                },
                Recepcion::Vacia => {
                    self.estado = EstadoWorker::Libre;
                    Paso::Bloqueado
                },
                Recepcion::Cerrada => {
                    autorizadas.retirar_productor();
                    Paso::Termino
                },
            },
            EstadoWorker::Esperando(transaccion) => match hashes.recibir() {
                Recepcion::Elemento(hash) => {
                    let autorizada = TransaccionAutorizada::new(transaccion, hash);
                    let _ = autorizadas.enviar(autorizada);
                    self.estado = EstadoWorker::Libre;
                    Paso::Avanzo
                },
                Recepcion::Vacia => {
                    self.estado = EstadoWorker::Esperando(transaccion);
                    Paso::Bloqueado
                },
                Recepcion::Cerrada => {
                    self.estado = EstadoWorker::Abortado(transaccion);
                    autorizadas.retirar_productor();
                    Paso::Aborto
                },
            },
            EstadoWorker::Terminado => Paso::Termino,
            EstadoWorker::Abortado(transaccion) => {
                self.estado = EstadoWorker::Abortado(transaccion);
                Paso::Aborto
            },
        }
    }

    /// Takes steps until one of them does not advance: until the worker
    /// blocks on an empty queue, finishes or gives up.
    ///
    /// The output queue must be open if any of these steps sends to it.
    pub fn procesar(
        &mut self,
        transacciones: &mut Cola<Transaccion>,
        hashes: &mut Cola<HashAutorizacion>,
        autorizadas: &mut Cola<TransaccionAutorizada>,
    ) -> (r: Paso)
        requires
            (Autorizacion {
                estado: old(self)@.estado,
                transacciones: old(transacciones)@,
                hashes: old(hashes)@,
                autorizadas: old(autorizadas)@,
            }).envia_antes_de_parar() ==> !old(autorizadas)@.cerrada,
        ensures
            (Autorizacion {
                estado: final(self)@.estado,
                transacciones: final(transacciones)@,
                hashes: final(hashes)@,
                autorizadas: final(autorizadas)@,
            }) == (Autorizacion {
                estado: old(self)@.estado,
                transacciones: old(transacciones)@,
                hashes: old(hashes)@,
                autorizadas: old(autorizadas)@,
            }).tras_procesar(),
            r == (Autorizacion {
                estado: old(self)@.estado,
                transacciones: old(transacciones)@,
                hashes: old(hashes)@,
                autorizadas: old(autorizadas)@,
            }).resultado_procesar(),
            r != Paso::Avanzo,
            final(self)@.tipo == old(self)@.tipo,
            final(self)@.id == old(self)@.id,
    {
        let ghost inicial = Autorizacion {
            estado: self@.estado,
            transacciones: transacciones@,
            hashes: hashes@,
            autorizadas: autorizadas@,
        };
        let mut r = self.paso(transacciones, hashes, autorizadas);
        let ghost mut previa = inicial;
        while r == Paso::Avanzo
            invariant
                r == previa.resultado_paso(),
                (Autorizacion {
                    estado: self@.estado,
                    transacciones: transacciones@,
                    hashes: hashes@,
                    autorizadas: autorizadas@,
                }) == previa.tras_paso(),
                previa.tras_procesar() == inicial.tras_procesar(),
                previa.resultado_procesar() == inicial.resultado_procesar(),
                previa.envia_antes_de_parar() ==> !previa.autorizadas.cerrada,
                self@.tipo == old(self)@.tipo,
                self@.id == old(self)@.id,
            decreases previa.alcance(),
        {
            proof {
                previa = previa.tras_paso();
            }
            r = self.paso(transacciones, hashes, autorizadas);
        }
        r
    }
}

/// Starts a pool of `n_workers` workers of kind `tipo_worker`, numbered from
/// zero, each registered as a producer of the output queue.
pub fn iniciar_workers_de_tipo(
    n_workers: u32,
    tipo_worker: TipoWorker,
    tx_transacciones_autorizadas: &mut Cola<TransaccionAutorizada>,
) -> (workers: Vec<Worker>)
    requires
        old(tx_transacciones_autorizadas)@.productores + n_workers <= usize::MAX,
    ensures
        workers.len() == n_workers,
        forall|i: int|
            0 <= i < n_workers ==> (#[trigger] workers[i])@ == (WorkerView {
                tipo: tipo_worker,
                id: i as u32,
                estado: EstadoWorker::Libre,
            }),
        final(tx_transacciones_autorizadas)@ == (ColaView {
            productores: (old(tx_transacciones_autorizadas)@.productores + n_workers) as nat,
            ..old(tx_transacciones_autorizadas)@
        }),
{
    let mut workers: Vec<Worker> = Vec::new();
    let mut worker_id: u32 = 0;
    while worker_id < n_workers
        invariant
            worker_id <= n_workers,
            workers.len() == worker_id,
            old(tx_transacciones_autorizadas)@.productores + n_workers <= usize::MAX,
            forall|i: int|
                0 <= i < worker_id ==> (#[trigger] workers[i])@ == (WorkerView {
                    tipo: tipo_worker,
                    id: i as u32,
                    estado: EstadoWorker::Libre,
                }),
            tx_transacciones_autorizadas@ == (ColaView {
                productores: (old(tx_transacciones_autorizadas)@.productores + worker_id) as nat,
                ..old(tx_transacciones_autorizadas)@
            }),
        decreases n_workers - worker_id,
    {
        let worker = Worker::iniciar(tipo_worker, worker_id, tx_transacciones_autorizadas);
        workers.push(worker);
        worker_id = worker_id + 1;
    }
    workers
}

} // verus!
