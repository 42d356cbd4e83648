//! The pool of authorization workers.
//!
//! The workers of a pool compete for the transactions of one kind and for
//! the tokens, and send what they pair to one queue, which several pools may
//! share. Which worker moves next is for the driver to say: the pool is run
//! by turns, and the laws at the end hold of every order of turns.

use vstd::prelude::*;
use vstd::multiset::Multiset;
use crate::cola::{Cola, ColaView};
use crate::multiconjuntos::{lema_agregar_ultima, lema_quitar_primera, lema_vacia_sin_elementos};
use crate::transaccion::{HashAutorizacion, Transaccion, TransaccionAutorizada};
use crate::worker::{Autorizacion, EstadoWorker, Worker};

verus! {

/// The states of the workers of a pool, in the order of the pool.
pub open spec fn estados(workers: Seq<Worker>) -> Seq<EstadoWorker> {
    Seq::new(workers.len(), |i: int| workers[i]@.estado)
}

/// How many of the workers have still steps to take.
pub open spec fn activos(workers: Seq<EstadoWorker>) -> nat
    decreases workers.len(),
{
    if workers.len() == 0 {
        0
    } else if workers.last().activo() {
        activos(workers.drop_last()) + 1
    } else {
        activos(workers.drop_last())
    }
}

/// The authorization stage as a whole: the workers of a pool and the three
/// queues that they share.
pub struct EtapaAutorizacion {
    pub workers: Seq<EstadoWorker>,
    pub transacciones: ColaView<Transaccion>,
    pub hashes: ColaView<HashAutorizacion>,
    pub autorizadas: ColaView<TransaccionAutorizada>,
}

impl EtapaAutorizacion {
    /// The stage as the worker `w` sees it.
    pub open spec fn vista_de(self, w: int) -> Autorizacion {
        Autorizacion {
            estado: self.workers[w],
            transacciones: self.transacciones,
            hashes: self.hashes,
            autorizadas: self.autorizadas,
        }
    }

    /// The stage after the worker `w` has taken one step. A turn given to a
    /// worker that the pool does not have changes nothing.
    pub open spec fn tras_turno(self, w: int) -> EtapaAutorizacion {
        if 0 <= w < self.workers.len() {
            let despues = self.vista_de(w).tras_paso();
            EtapaAutorizacion {
                workers: self.workers.update(w, despues.estado),
                transacciones: despues.transacciones,
                hashes: despues.hashes,
                autorizadas: despues.autorizadas,
            }
        } else {
            self
        }
    }

    /// The stage after the turns of `turnos`, taken in that order.
    pub open spec fn tras_turnos(self, turnos: Seq<usize>) -> EtapaAutorizacion
        decreases turnos.len(),
    {
        if turnos.len() == 0 {
            self
        } else {
            self.tras_turnos(turnos.drop_last()).tras_turno(turnos.last() as int)
        }
    }

    /// The pool owns the close of its output: every worker that has still
    /// steps to take is registered as a producer of the output queue, and the
    /// queue is open while there is such a worker.
    pub open spec fn bien_formada(self) -> bool {
        &&& activos(self.workers) <= self.autorizadas.productores
        &&& activos(self.workers) > 0 ==> !self.autorizadas.cerrada
    }
}

/// Gives the workers of a pool their turns in the order of `turnos`: each
/// turn names a worker by its place in `workers`, and that worker takes one
/// step. A turn that names no worker of the pool is skipped.
pub fn ejecutar_turnos(
    workers: &mut Vec<Worker>,
    turnos: &Vec<usize>,
    transacciones: &mut Cola<Transaccion>,
    hashes: &mut Cola<HashAutorizacion>,
    autorizadas: &mut Cola<TransaccionAutorizada>,
)
    requires
        (EtapaAutorizacion {
            workers: estados(old(workers)@),
            transacciones: old(transacciones)@,
            hashes: old(hashes)@,
            autorizadas: old(autorizadas)@,
        }).bien_formada(),
    ensures
        (EtapaAutorizacion {
            workers: estados(final(workers)@),
            transacciones: final(transacciones)@,
            hashes: final(hashes)@,
            autorizadas: final(autorizadas)@,
        }) == (EtapaAutorizacion {
            workers: estados(old(workers)@),
            transacciones: old(transacciones)@,
            hashes: old(hashes)@,
            autorizadas: old(autorizadas)@,
        }).tras_turnos(turnos@),
        (EtapaAutorizacion {
            workers: estados(final(workers)@),
            transacciones: final(transacciones)@,
            hashes: final(hashes)@,
            autorizadas: final(autorizadas)@,
        }).bien_formada(),
        final(workers)@.len() == old(workers)@.len(),
        forall|i: int|
            0 <= i < old(workers)@.len() ==> (#[trigger] final(workers)@[i])@.tipo == old(
                workers,
            )@[i]@.tipo && final(workers)@[i]@.id == old(workers)@[i]@.id,
{
    let ghost inicial = EtapaAutorizacion {
        workers: estados(workers@),
        transacciones: transacciones@,
        hashes: hashes@,
        autorizadas: autorizadas@,
    };
    let mut k: usize = 0;
    while k < turnos.len()
        invariant
            k <= turnos.len(),
            inicial.bien_formada(),
            workers@.len() == old(workers)@.len(),
            forall|i: int|
                0 <= i < old(workers)@.len() ==> (#[trigger] workers@[i])@.tipo == old(
                    workers,
                )@[i]@.tipo && workers@[i]@.id == old(workers)@[i]@.id,
            (EtapaAutorizacion {
                workers: estados(workers@),
                transacciones: transacciones@,
                hashes: hashes@,
                autorizadas: autorizadas@,
            }) == inicial.tras_turnos(turnos@.subrange(0, k as int)),
            inicial.tras_turnos(turnos@.subrange(0, k as int)).bien_formada(),
        decreases turnos.len() - k,
    {
        let w = turnos[k];
        let ghost antes = EtapaAutorizacion {
            workers: estados(workers@),
            transacciones: transacciones@,
            hashes: hashes@,
            autorizadas: autorizadas@,
        };
        proof {
            assert(turnos@.subrange(0, k + 1).drop_last() == turnos@.subrange(0, k as int));
            lema_turno_conserva_forma(antes, w as int);
        }
        if w < workers.len() {
            proof {
                lema_activo_entre_activos(antes.workers, w as int);
            }
            let _ = workers[w].paso(transacciones, hashes, autorizadas);
            assert(estados(workers@) == antes.workers.update(w as int, workers@[w as int]@.estado));
        }
        k = k + 1;
    }
    assert(turnos@.subrange(0, k as int) == turnos@);
}

/// Changing the state of one worker changes the number of active workers by
/// what that worker contributes to it.
proof fn lema_activos_tras_cambio(workers: Seq<EstadoWorker>, w: int, estado: EstadoWorker)
    requires
        0 <= w < workers.len(),
    ensures
        activos(workers.update(w, estado)) + (if workers[w].activo() { 1nat } else { 0nat })
            == activos(workers) + (if estado.activo() { 1nat } else { 0nat }),
    decreases workers.len(),
{
    if w == workers.len() - 1 {
        assert(workers.update(w, estado).drop_last() == workers.drop_last());
    } else {
        assert(workers.update(w, estado).drop_last() == workers.drop_last().update(w, estado));
        lema_activos_tras_cambio(workers.drop_last(), w, estado);
    }
}

/// Where one worker is active, the count of active workers is not zero.
proof fn lema_activo_entre_activos(workers: Seq<EstadoWorker>, w: int)
    requires
        0 <= w < workers.len(),
    ensures
        workers[w].activo() ==> activos(workers) > 0,
    decreases workers.len(),
{
    if w < workers.len() - 1 {
        lema_activo_entre_activos(workers.drop_last(), w);
    }
}

/// A turn keeps the pool's hold on the close of its output.
proof fn lema_turno_conserva_forma(etapa: EtapaAutorizacion, w: int)
    requires
        etapa.bien_formada(),
    ensures
        etapa.tras_turno(w).bien_formada(),
{
    if 0 <= w < etapa.workers.len() {
        lema_activo_entre_activos(etapa.workers, w);
        lema_activos_tras_cambio(etapa.workers, w, etapa.vista_de(w).tras_paso().estado);
    }
}

/// The transaction that a worker in this state holds, or has lost.
pub open spec fn retenida_por(estado: EstadoWorker) -> Multiset<Transaccion> {
    match estado {
        EstadoWorker::Esperando(t) => Multiset::empty().insert(t),
        EstadoWorker::Abortado(t) => Multiset::empty().insert(t),
        _ => Multiset::empty(),
    }
}

/// The transactions that the workers hold between their two receives, and
/// those that were lost with a worker that gave up.
pub open spec fn retenidas(workers: Seq<EstadoWorker>) -> Multiset<Transaccion>
    decreases workers.len(),
{
    if workers.len() == 0 {
        Multiset::empty()
    } else {
        retenidas(workers.drop_last()).add(retenida_por(workers.last()))
    }
}

/// The transactions of a sequence of authorized transactions, in its order.
pub open spec fn transacciones_de(autorizadas: Seq<TransaccionAutorizada>) -> Seq<Transaccion> {
    Seq::new(autorizadas.len(), |i: int| autorizadas[i].transaccion)
}

/// The tokens of a sequence of authorized transactions, in its order.
pub open spec fn hashes_de(autorizadas: Seq<TransaccionAutorizada>) -> Seq<HashAutorizacion> {
    Seq::new(autorizadas.len(), |i: int| autorizadas[i].autorizacion)
}

impl EtapaAutorizacion {
    /// Every transaction that is in the stage, counted as often as it occurs:
    /// those waiting in the input queue, those in the hands of a worker, and
    /// those in the output queue.
    pub open spec fn transacciones_en_la_etapa(self) -> Multiset<Transaccion> {
        self.transacciones.elementos.to_multiset().add(retenidas(self.workers)).add(
            transacciones_de(self.autorizadas.elementos).to_multiset(),
        )
    }

    /// Every token that is in the stage, counted as often as it occurs: those
    /// waiting in the token queue and those paired in the output queue.
    pub open spec fn hashes_en_la_etapa(self) -> Multiset<HashAutorizacion> {
        self.hashes.elementos.to_multiset().add(
            hashes_de(self.autorizadas.elementos).to_multiset(),
        )
    }

    /// Whether some worker has finished. A worker finishes only on an input
    /// that is closed and drained.
    pub open spec fn alguno_termino(self) -> bool {
        exists|i: int| 0 <= i < self.workers.len() && (#[trigger] self.workers[i]) is Terminado
    }

    /// Whether the input is closed and drained.
    pub open spec fn entrada_agotada(self) -> bool {
        self.transacciones.cerrada && self.transacciones.elementos.len() == 0
    }

    /// No worker has finished on an input that has still something to give.
    pub open spec fn termina_agotada(self) -> bool {
        self.alguno_termino() ==> self.entrada_agotada()
    }
}

/// One step of one worker neither makes a transaction nor loses one from
/// sight, nor does it use a token twice: a transaction moves from the input
/// to the worker, or with a token from the worker to the output, or stays
/// with a worker that gave up.
pub proof fn turno_conserva(etapa: EtapaAutorizacion, w: int)
    requires
        etapa.bien_formada(),
    ensures
        etapa.tras_turno(w).bien_formada(),
        etapa.tras_turno(w).transacciones_en_la_etapa() == etapa.transacciones_en_la_etapa(),
        etapa.tras_turno(w).hashes_en_la_etapa().subset_of(etapa.hashes_en_la_etapa()),
        etapa.tras_turno(w).workers.len() == etapa.workers.len(),
        etapa.termina_agotada() ==> etapa.tras_turno(w).termina_agotada(),
{
    broadcast use vstd::multiset::group_multiset_axioms;

    lema_turno_conserva_forma(etapa, w);
    let despues = etapa.tras_turno(w);
    if 0 <= w < etapa.workers.len() {
        let vista = etapa.vista_de(w);
        let nuevo = vista.tras_paso().estado;
        lema_retenidas_tras_cambio(etapa.workers, w, nuevo);
        lema_activo_entre_activos(etapa.workers, w);
        match etapa.workers[w] {
            EstadoWorker::Libre => {
                if etapa.transacciones.elementos.len() > 0 {
                    lema_quitar_primera(etapa.transacciones.elementos);
                }
            },
            EstadoWorker::Esperando(t) => {
                if etapa.hashes.elementos.len() > 0 {
                    let h = etapa.hashes.elementos[0];
                    let a = TransaccionAutorizada { transaccion: t, autorizacion: h };
                    lema_quitar_primera(etapa.hashes.elementos);
                    assert(transacciones_de(etapa.autorizadas.elementos.push(a))
                        == transacciones_de(etapa.autorizadas.elementos).push(t));
                    assert(hashes_de(etapa.autorizadas.elementos.push(a)) == hashes_de(
                        etapa.autorizadas.elementos,
                    ).push(h));
                    lema_agregar_ultima(transacciones_de(etapa.autorizadas.elementos), t);
                    lema_agregar_ultima(hashes_de(etapa.autorizadas.elementos), h);
                }
            },
            _ => {},
        }
        assert forall|t: Transaccion|
            despues.transacciones_en_la_etapa().count(t) == etapa.transacciones_en_la_etapa().count(
                t,
            ) by {
            assert(retenidas(despues.workers).add(retenida_por(etapa.workers[w])).count(t)
                == retenidas(etapa.workers).add(retenida_por(nuevo)).count(t));
        }
        assert(despues.transacciones_en_la_etapa() =~= etapa.transacciones_en_la_etapa());
        assert(despues.hashes_en_la_etapa().subset_of(etapa.hashes_en_la_etapa()));
        if etapa.termina_agotada() {
            if despues.alguno_termino() {
                let i = choose|i: int| 0 <= i < despues.workers.len() && (#[trigger] despues.workers[i]) is Terminado;
                if i != w {
                    assert(etapa.workers[i] is Terminado);
                }
            }
        }
    }
}

/// No order of turns makes a transaction or loses one from sight, and none
/// uses a token twice.
pub proof fn turnos_conservan(etapa: EtapaAutorizacion, turnos: Seq<usize>)
    requires
        etapa.bien_formada(),
    ensures
        etapa.tras_turnos(turnos).bien_formada(),
        etapa.tras_turnos(turnos).transacciones_en_la_etapa() == etapa.transacciones_en_la_etapa(),
        etapa.tras_turnos(turnos).hashes_en_la_etapa().subset_of(etapa.hashes_en_la_etapa()),
        etapa.tras_turnos(turnos).workers.len() == etapa.workers.len(),
        etapa.termina_agotada() ==> etapa.tras_turnos(turnos).termina_agotada(),
    decreases turnos.len(),
{
    broadcast use vstd::multiset::group_multiset_axioms;

    if turnos.len() > 0 {
        turnos_conservan(etapa, turnos.drop_last());
        turno_conserva(etapa.tras_turnos(turnos.drop_last()), turnos.last() as int);
    }
}

/// A pool of one worker or more that starts with all workers free and an
/// empty output, and is run until every worker has finished, has authorized
/// each transaction of its input exactly once: the transactions of the
/// output are those of the input, each as often as the input held it, and
/// nothing is left in the input. This holds for every number of workers and
/// every order of turns. Each token of the output came from the token queue,
/// and none was used more often than the queue held it.
pub proof fn cada_transaccion_se_autoriza_una_vez(etapa: EtapaAutorizacion, turnos: Seq<usize>)
    requires
        etapa.bien_formada(),
        etapa.workers.len() > 0,
        forall|i: int| 0 <= i < etapa.workers.len() ==> (#[trigger] etapa.workers[i]) is Libre,
        etapa.autorizadas.elementos.len() == 0,
        forall|i: int|
            0 <= i < etapa.tras_turnos(turnos).workers.len() ==> (#[trigger] etapa.tras_turnos(
                turnos,
            ).workers[i]) is Terminado,
    ensures
        transacciones_de(etapa.tras_turnos(turnos).autorizadas.elementos).to_multiset()
            == etapa.transacciones.elementos.to_multiset(),
        etapa.tras_turnos(turnos).autorizadas.elementos.len() == etapa.transacciones.elementos.len(),
        etapa.tras_turnos(turnos).transacciones.elementos.len() == 0,
        hashes_de(etapa.tras_turnos(turnos).autorizadas.elementos).to_multiset().subset_of(
            etapa.hashes.elementos.to_multiset(),
        ),
{
    broadcast use vstd::multiset::group_multiset_axioms;

    let fin = etapa.tras_turnos(turnos);
    turnos_conservan(etapa, turnos);
    lema_sin_retenidas(etapa.workers);
    lema_sin_retenidas(fin.workers);
    assert(fin.workers[0] is Terminado);
    assert(fin.alguno_termino());
    if etapa.alguno_termino() {
        let i = choose|i: int| 0 <= i < etapa.workers.len() && (#[trigger] etapa.workers[i]) is Terminado;
        assert(etapa.workers[i] is Libre);
    }
    lema_vacia_sin_elementos(fin.transacciones.elementos);
    lema_vacia_sin_elementos(transacciones_de(etapa.autorizadas.elementos));
    lema_vacia_sin_elementos(hashes_de(etapa.autorizadas.elementos));
    assert forall|t: Transaccion|
        transacciones_de(fin.autorizadas.elementos).to_multiset().count(t)
            == etapa.transacciones.elementos.to_multiset().count(t) by {
        assert(fin.transacciones_en_la_etapa().count(t) == etapa.transacciones_en_la_etapa().count(
            t,
        ));
    }
    assert(transacciones_de(fin.autorizadas.elementos).to_multiset()
        =~= etapa.transacciones.elementos.to_multiset());
    vstd::seq_lib::to_multiset_len(transacciones_de(fin.autorizadas.elementos));
    vstd::seq_lib::to_multiset_len(etapa.transacciones.elementos);
    assert forall|h: HashAutorizacion|
        hashes_de(fin.autorizadas.elementos).to_multiset().count(h)
            <= etapa.hashes.elementos.to_multiset().count(h) by {
        assert(fin.hashes_en_la_etapa().count(h) <= etapa.hashes_en_la_etapa().count(h));
    }
}

/// The close of the output belongs to its producers together. Of an output
/// that is open and has its producers registered, whatever the order of
/// turns: the producers that are not workers of this pool stay as many as they
/// were, and the output is closed exactly when its last producer has retired.
/// So an output that this pool alone feeds is closed when every worker of the
/// pool has ended, and not before.
pub proof fn el_cierre_es_del_ultimo(etapa: EtapaAutorizacion, turnos: Seq<usize>)
    requires
        etapa.bien_formada(),
        !etapa.autorizadas.cerrada,
        etapa.autorizadas.productores > 0,
    ensures
        etapa.tras_turnos(turnos).autorizadas.productores - activos(
            etapa.tras_turnos(turnos).workers,
        ) == etapa.autorizadas.productores - activos(etapa.workers),
        etapa.tras_turnos(turnos).autorizadas.cerrada <==> etapa.tras_turnos(
            turnos,
        ).autorizadas.productores == 0,
        etapa.autorizadas.productores == activos(etapa.workers) ==> (etapa.tras_turnos(
            turnos,
        ).autorizadas.cerrada <==> activos(etapa.tras_turnos(turnos).workers) == 0),
    decreases turnos.len(),
{
    if turnos.len() > 0 {
        let previa = etapa.tras_turnos(turnos.drop_last());
        let w = turnos.last() as int;
        el_cierre_es_del_ultimo(etapa, turnos.drop_last());
        turnos_conservan(etapa, turnos.drop_last());
        if 0 <= w < previa.workers.len() {
            lema_activo_entre_activos(previa.workers, w);
            lema_activos_tras_cambio(previa.workers, w, previa.vista_de(w).tras_paso().estado);
        }
    }
}

/// Changing the state of one worker changes what the workers hold by what
/// that worker held and what it holds now.
proof fn lema_retenidas_tras_cambio(workers: Seq<EstadoWorker>, w: int, estado: EstadoWorker)
    requires
        0 <= w < workers.len(),
    ensures
        retenidas(workers.update(w, estado)).add(retenida_por(workers[w])) == retenidas(workers).add(
            retenida_por(estado),
        ),
    decreases workers.len(),
{
    broadcast use vstd::multiset::group_multiset_axioms;

    let cambiados = workers.update(w, estado);
    let resto = workers.drop_last();
    assert(retenidas(workers) == retenidas(resto).add(retenida_por(workers.last())));
    assert(retenidas(cambiados) == retenidas(cambiados.drop_last()).add(
        retenida_por(cambiados.last()),
    ));
    if w == workers.len() - 1 {
        assert(cambiados.drop_last() == resto);
        assert(cambiados.last() == estado);
    } else {
        assert(cambiados.drop_last() == resto.update(w, estado));
        assert(cambiados.last() == workers.last());
        assert(resto[w] == workers[w]);
        lema_retenidas_tras_cambio(resto, w, estado);
        assert forall|t: Transaccion|
            retenidas(cambiados).add(retenida_por(workers[w])).count(t) == retenidas(workers).add(
                retenida_por(estado),
            ).count(t) by {
            assert(retenidas(resto.update(w, estado)).add(retenida_por(resto[w])).count(t)
                == retenidas(resto).add(retenida_por(estado)).count(t));
        }
    }
    assert(retenidas(cambiados).add(retenida_por(workers[w])) =~= retenidas(workers).add(
        retenida_por(estado),
    ));
}

/// Workers that are all free or finished hold no transaction.
proof fn lema_sin_retenidas(workers: Seq<EstadoWorker>)
    requires
        forall|i: int|
            0 <= i < workers.len() ==> (#[trigger] workers[i]) is Libre || workers[i] is Terminado,
    ensures
        retenidas(workers) == Multiset::<Transaccion>::empty(),
    decreases workers.len(),
{
    broadcast use vstd::multiset::group_multiset_axioms;

    if workers.len() > 0 {
        lema_sin_retenidas(workers.drop_last());
        assert(retenidas(workers) =~= Multiset::<Transaccion>::empty());
    }
}

} // verus!
