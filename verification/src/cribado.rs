//! The pool of screening workers.
//!
//! The workers of a pool compete for the authorized transactions and send
//! those they let through to one queue. Which worker moves next is for the
//! driver to say, and what each step draws is for chance: the functions here
//! hand back how every step ended, so that where the pool stands is known
//! from where it stood, the turns and their endings. The laws at the end hold
//! of every order of turns and of everything that can be drawn.

use vstd::prelude::*;
use vstd::multiset::Multiset;
use crate::cola::{Cola, ColaView};
use crate::fraccion::PARTES_POR_UNIDAD;
use crate::ia::{Cribado, EstadoIA, PasoIA, ProcesadorIA, ProcesadorIAView};
use crate::multiconjuntos::{lema_agregar_ultima, lema_quitar_primera, lema_vacia_sin_elementos};
use crate::transaccion::TransaccionAutorizada;

verus! {

/// The views of the workers of a pool, in the order of the pool.
pub open spec fn vistas_de(procesadores: Seq<ProcesadorIA>) -> Seq<ProcesadorIAView> {
    Seq::new(procesadores.len(), |i: int| procesadores[i]@)
}

/// How many of the workers have still steps to take.
pub open spec fn activos(procesadores: Seq<ProcesadorIAView>) -> nat
    decreases procesadores.len(),
{
    if procesadores.len() == 0 {
        0
    } else if procesadores.last().estado is Terminado {
        activos(procesadores.drop_last())
    } else {
        activos(procesadores.drop_last()) + 1
    }
}

/// The transaction that a worker in this state holds.
pub open spec fn retenida_por(estado: EstadoIA) -> Multiset<TransaccionAutorizada> {
    match estado {
        EstadoIA::Evaluando(t) => Multiset::empty().insert(t),
        _ => Multiset::empty(),
    }
}

/// The transactions that the workers hold while they decide on them.
pub open spec fn retenidas(procesadores: Seq<ProcesadorIAView>) -> Multiset<TransaccionAutorizada>
    decreases procesadores.len(),
{
    if procesadores.len() == 0 {
        Multiset::empty()
    } else {
        retenidas(procesadores.drop_last()).add(retenida_por(procesadores.last().estado))
    }
}

/// The turns of `turnos` that name a worker of a pool of `n` workers, in
/// their order.
pub open spec fn nombrados(turnos: Seq<usize>, n: nat) -> Seq<int>
    decreases turnos.len(),
{
    if turnos.len() == 0 {
        Seq::empty()
    } else if turnos.last() < n {
        nombrados(turnos.drop_last(), n).push(turnos.last() as int)
    } else {
        nombrados(turnos.drop_last(), n)
    }
}

/// The transactions that the steps `pasos` flagged, in the order of the
/// steps.
pub open spec fn descartadas_de(pasos: Seq<PasoIA>) -> Seq<TransaccionAutorizada>
    decreases pasos.len(),
{
    if pasos.len() == 0 {
        Seq::empty()
    } else {
        match pasos.last() {
            PasoIA::Descarto(transaccion) => descartadas_de(pasos.drop_last()).push(transaccion),
            _ => descartadas_de(pasos.drop_last()),
        }
    }
}

/// The screening stage as a whole: the workers of the pool and the two queues
/// that they share.
pub struct EtapaCribado {
    pub procesadores: Seq<ProcesadorIAView>,
    pub autorizadas: ColaView<TransaccionAutorizada>,
    pub validas: ColaView<TransaccionAutorizada>,
}

impl EtapaCribado {
    /// The stage as the worker `w` sees it.
    pub open spec fn vista_de(self, w: int) -> Cribado {
        Cribado {
            procesador: self.procesadores[w],
            autorizadas: self.autorizadas,
            validas: self.validas,
        }
    }

    /// The stage after a step of the worker `w` that ended as `paso`.
    pub open spec fn tras_turno(self, w: int, paso: PasoIA) -> EtapaCribado {
        if 0 <= w < self.procesadores.len() {
            let despues = self.vista_de(w).tras_paso(paso);
            EtapaCribado {
                procesadores: self.procesadores.update(w, despues.procesador),
                autorizadas: despues.autorizadas,
                validas: despues.validas,
            }
        } else {
            self
        }
    }

    /// The stage after the workers `turnos` have taken one step each, in that
    /// order, steps that ended as `pasos` says.
    pub open spec fn tras_turnos(self, turnos: Seq<int>, pasos: Seq<PasoIA>) -> EtapaCribado
        decreases turnos.len(),
    {
        if turnos.len() == 0 || pasos.len() == 0 {
            self
        } else {
            self.tras_turnos(turnos.drop_last(), pasos.drop_last()).tras_turno(
                turnos.last(),
                pasos.last(),
            )
        }
    }

    /// Whether the steps of the workers `turnos`, taken in that order, can
    /// end as `pasos` says: one ending for each turn, each possible where the
    /// turns before it have left the stage.
    pub open spec fn turnos_posibles(self, turnos: Seq<int>, pasos: Seq<PasoIA>) -> bool
        decreases turnos.len(),
    {
        &&& turnos.len() == pasos.len()
        &&& turnos.len() > 0 ==> {
            &&& 0 <= turnos.last() < self.procesadores.len()
            &&& self.turnos_posibles(turnos.drop_last(), pasos.drop_last())
            &&& self.tras_turnos(turnos.drop_last(), pasos.drop_last()).vista_de(
                turnos.last(),
            ).paso_posible(pasos.last())
        }
    }

    /// The pool owns the close of its output: every worker that has still
    /// steps to take is registered as a producer of the queue of valid
    /// transactions, and the queue is open while there is such a worker.
    pub open spec fn bien_formada(self) -> bool {
        &&& activos(self.procesadores) <= self.validas.productores
        &&& activos(self.procesadores) > 0 ==> !self.validas.cerrada
    }

    /// Every transaction that is in the stage, counted as often as it
    /// occurs: those waiting in the input, those in the hands of a worker,
    /// and those let through.
    pub open spec fn transacciones_en_la_etapa(self) -> Multiset<TransaccionAutorizada> {
        self.autorizadas.elementos.to_multiset().add(retenidas(self.procesadores)).add(
            self.validas.elementos.to_multiset(),
        )
    }

    /// Whether some worker has finished. A worker finishes only on an input
    /// that is closed and drained.
    pub open spec fn alguno_termino(self) -> bool {
        exists|i: int|
            0 <= i < self.procesadores.len() && (#[trigger] self.procesadores[i]).estado is Terminado
    }

    /// No worker has finished on an input that has still something to give.
    pub open spec fn termina_agotada(self) -> bool {
        self.alguno_termino() ==> self.autorizadas.cerrada && self.autorizadas.elementos.len() == 0
    }

    /// Whether the workers of `despues` are those of `self`, but for where
    /// each stands in its cycle.
    pub open spec fn mismos_procesadores(self, despues: EtapaCribado) -> bool {
        &&& despues.procesadores.len() == self.procesadores.len()
        &&& forall|i: int|
            0 <= i < self.procesadores.len() ==> {
                &&& (#[trigger] despues.procesadores[i]).id == self.procesadores[i].id
                &&& despues.procesadores[i].semilla == self.procesadores[i].semilla
                &&& despues.procesadores[i].umbral == self.procesadores[i].umbral
                &&& despues.procesadores[i].demora_maxima == self.procesadores[i].demora_maxima
            }
    }

    /// What holds between a stage and the stage that turns have made of it,
    /// with `descartadas` the transactions flagged on the way.
    ///
    /// The workers are the same. No transaction is made and none is lost from
    /// sight: those in the stage and those flagged are, together, those that
    /// were in the stage. Nothing that was let through before is taken back.
    /// The pool keeps its hold on the close of its output, the producers that
    /// are not workers of this pool stay as many as they were, and an output
    /// that was open with producers registered is closed exactly when the
    /// last of them has retired. If no worker had finished on an input with
    /// something left to give, none has now. Workers with a threshold of zero
    /// flag nothing; workers with a threshold of all the parts let nothing
    /// through.
    pub open spec fn conserva(
        self,
        descartadas: Seq<TransaccionAutorizada>,
        despues: EtapaCribado,
    ) -> bool {
        &&& self.mismos_procesadores(despues)
        &&& despues.bien_formada()
        &&& despues.transacciones_en_la_etapa().add(descartadas.to_multiset())
            == self.transacciones_en_la_etapa()
        &&& despues.autorizadas.cerrada == self.autorizadas.cerrada
        &&& despues.autorizadas.productores == self.autorizadas.productores
        &&& despues.validas.elementos.len() >= self.validas.elementos.len()
        &&& despues.validas.elementos.subrange(0, self.validas.elementos.len() as int)
            == self.validas.elementos
        &&& despues.validas.productores - activos(despues.procesadores)
            == self.validas.productores - activos(self.procesadores)
        &&& (!self.validas.cerrada && self.validas.productores > 0) ==> (despues.validas.cerrada
            <==> despues.validas.productores == 0)
        &&& self.termina_agotada() ==> despues.termina_agotada()
        &&& (forall|i: int|
            0 <= i < self.procesadores.len() ==> (#[trigger] self.procesadores[i]).umbral == 0)
            ==> descartadas.len() == 0
        &&& (forall|i: int|
            0 <= i < self.procesadores.len() ==> (#[trigger] self.procesadores[i]).umbral
                >= PARTES_POR_UNIDAD) ==> despues.validas.elementos == self.validas.elementos
    }
}

/// Gives the workers of a pool their turns in the order of `turnos`: each
/// turn names a worker by its place in `procesadores`, and that worker takes
/// one step. A turn that names no worker of the pool is skipped. Returns how
/// each step ended, in the order of the steps; the ending of a step that
/// flagged a transaction holds that transaction. The latencies drawn are not
/// waited for.
pub fn ejecutar_turnos(
    procesadores: &mut Vec<ProcesadorIA>,
    turnos: &Vec<usize>,
    autorizadas: &mut Cola<TransaccionAutorizada>,
    validas: &mut Cola<TransaccionAutorizada>,
) -> (pasos: Vec<PasoIA>)
    requires
        (EtapaCribado {
            procesadores: vistas_de(old(procesadores)@),
            autorizadas: old(autorizadas)@,
            validas: old(validas)@,
        }).bien_formada(),
    ensures
        (EtapaCribado {
            procesadores: vistas_de(old(procesadores)@),
            autorizadas: old(autorizadas)@,
            validas: old(validas)@,
        }).turnos_posibles(nombrados(turnos@, old(procesadores)@.len()), pasos@),
        (EtapaCribado {
            procesadores: vistas_de(final(procesadores)@),
            autorizadas: final(autorizadas)@,
            validas: final(validas)@,
        }) == (EtapaCribado {
            procesadores: vistas_de(old(procesadores)@),
            autorizadas: old(autorizadas)@,
            validas: old(validas)@,
        }).tras_turnos(nombrados(turnos@, old(procesadores)@.len()), pasos@),
        (EtapaCribado {
            procesadores: vistas_de(final(procesadores)@),
            autorizadas: final(autorizadas)@,
            validas: final(validas)@,
        }).bien_formada(),
        final(procesadores)@.len() == old(procesadores)@.len(),
{
    let ghost inicial = EtapaCribado {
        procesadores: vistas_de(procesadores@),
        autorizadas: autorizadas@,
        validas: validas@,
    };
    let ghost n = procesadores@.len();
    let mut pasos: Vec<PasoIA> = Vec::new();
    let mut k: usize = 0;
    while k < turnos.len()
        invariant
            k <= turnos.len(),
            n == old(procesadores)@.len(),
            procesadores@.len() == n,
            inicial.procesadores.len() == n,
            inicial.turnos_posibles(nombrados(turnos@.subrange(0, k as int), n), pasos@),
            (EtapaCribado {
                procesadores: vistas_de(procesadores@),
                autorizadas: autorizadas@,
                validas: validas@,
            }) == inicial.tras_turnos(nombrados(turnos@.subrange(0, k as int), n), pasos@),
            (EtapaCribado {
                procesadores: vistas_de(procesadores@),
                autorizadas: autorizadas@,
                validas: validas@,
            }).bien_formada(),
        decreases turnos.len() - k,
    {
        let w = turnos[k];
        let ghost previos = nombrados(turnos@.subrange(0, k as int), n);
        let ghost pasos_previos = pasos@;
        proof {
            assert(turnos@.subrange(0, k + 1).drop_last() == turnos@.subrange(0, k as int));
        }
        if w < procesadores.len() {
            let ghost antes = EtapaCribado {
                procesadores: vistas_de(procesadores@),
                autorizadas: autorizadas@,
                validas: validas@,
            };
            proof {
                lema_activo_entre_activos(antes.procesadores, w as int);
            }
            let paso = procesadores[w].paso(autorizadas, validas);
            proof {
                assert(vistas_de(procesadores@) == antes.procesadores.update(
                    w as int,
                    procesadores@[w as int]@,
                ));
                lema_turno_conserva_forma(antes, w as int, paso);
                let ghost ahora = previos.push(w as int);
                assert(ahora.drop_last() == previos);
                assert(pasos_previos.push(paso).drop_last() == pasos_previos);
            }
            pasos.push(paso);
        }
        k = k + 1;
    }
    assert(turnos@.subrange(0, k as int) == turnos@);
    pasos
}

/// Whatever the order of the turns and whatever was drawn, a pool that holds
/// the close of its output conserves its transactions: what `conserva` says
/// holds between the stage before the turns and the stage after them, with
/// the transactions that the steps flagged.
pub proof fn turnos_conservan(etapa: EtapaCribado, turnos: Seq<int>, pasos: Seq<PasoIA>)
    requires
        etapa.bien_formada(),
        etapa.turnos_posibles(turnos, pasos),
    ensures
        etapa.conserva(descartadas_de(pasos), etapa.tras_turnos(turnos, pasos)),
    decreases turnos.len(),
{
    if turnos.len() == 0 {
        lema_sin_turnos(etapa);
    } else {
        turnos_conservan(etapa, turnos.drop_last(), pasos.drop_last());
        lema_turno(
            etapa,
            descartadas_de(pasos.drop_last()),
            etapa.tras_turnos(turnos.drop_last(), pasos.drop_last()),
            turnos.last(),
            pasos.last(),
        );
    }
}

/// A pool of one worker or more that starts with all its workers free and
/// nothing let through, and is run until every worker has finished, has
/// decided on every transaction of its input exactly once: the transactions
/// let through and those flagged are, together, those that the input held,
/// each as often as the input held it, and nothing is left in the input.
pub proof fn cada_transaccion_se_criba_una_vez(
    etapa: EtapaCribado,
    turnos: Seq<int>,
    pasos: Seq<PasoIA>,
)
    requires
        etapa.bien_formada(),
        etapa.turnos_posibles(turnos, pasos),
        etapa.procesadores.len() > 0,
        forall|i: int|
            0 <= i < etapa.procesadores.len() ==> (#[trigger] etapa.procesadores[i]).estado is Libre,
        etapa.validas.elementos.len() == 0,
        forall|i: int|
            0 <= i < etapa.tras_turnos(turnos, pasos).procesadores.len() ==> (
            #[trigger] etapa.tras_turnos(turnos, pasos).procesadores[i]).estado is Terminado,
    ensures
        etapa.tras_turnos(turnos, pasos).validas.elementos.to_multiset().add(
            descartadas_de(pasos).to_multiset(),
        ) == etapa.autorizadas.elementos.to_multiset(),
        etapa.tras_turnos(turnos, pasos).validas.elementos.len() + descartadas_de(pasos).len()
            == etapa.autorizadas.elementos.len(),
        etapa.tras_turnos(turnos, pasos).autorizadas.elementos.len() == 0,
{
    broadcast use vstd::multiset::group_multiset_axioms;

    let fin = etapa.tras_turnos(turnos, pasos);
    turnos_conservan(etapa, turnos, pasos);
    lema_sin_retenidas(etapa.procesadores);
    lema_sin_retenidas(fin.procesadores);
    lema_vacia_sin_elementos(etapa.validas.elementos);
    assert(fin.procesadores[0].estado is Terminado);
    assert(fin.alguno_termino());
    if etapa.alguno_termino() {
        let i = choose|i: int|
            0 <= i < etapa.procesadores.len() && (#[trigger] etapa.procesadores[i]).estado is Terminado;
        assert(etapa.procesadores[i].estado is Libre);
    }
    lema_vacia_sin_elementos(fin.autorizadas.elementos);
    assert forall|t: TransaccionAutorizada|
        fin.validas.elementos.to_multiset().add(descartadas_de(pasos).to_multiset()).count(t)
            == etapa.autorizadas.elementos.to_multiset().count(t) by {
        assert(fin.transacciones_en_la_etapa().add(descartadas_de(pasos).to_multiset()).count(t)
            == etapa.transacciones_en_la_etapa().count(t));
    }
    assert(fin.validas.elementos.to_multiset().add(descartadas_de(pasos).to_multiset())
        =~= etapa.autorizadas.elementos.to_multiset());
    vstd::seq_lib::to_multiset_len(fin.validas.elementos);
    vstd::seq_lib::to_multiset_len(descartadas_de(pasos));
    vstd::seq_lib::to_multiset_len(etapa.autorizadas.elementos);
}

/// A pool that has taken no turn is where it was.
proof fn lema_sin_turnos(etapa: EtapaCribado)
    requires
        etapa.bien_formada(),
    ensures
        etapa.conserva(Seq::empty(), etapa),
{
    broadcast use vstd::multiset::group_multiset_axioms;

    lema_vacia_sin_elementos(Seq::<TransaccionAutorizada>::empty());
    assert(etapa.transacciones_en_la_etapa().add(
        Seq::<TransaccionAutorizada>::empty().to_multiset(),
    ) =~= etapa.transacciones_en_la_etapa());
    assert(etapa.validas.elementos.subrange(0, etapa.validas.elementos.len() as int)
        == etapa.validas.elementos);
}

/// A turn keeps the pool's hold on the close of its output.
proof fn lema_turno_conserva_forma(etapa: EtapaCribado, w: int, paso: PasoIA)
    requires
        etapa.bien_formada(),
        0 <= w < etapa.procesadores.len(),
        etapa.vista_de(w).paso_posible(paso),
    ensures
        etapa.tras_turno(w, paso).bien_formada(),
{
    lema_activo_entre_activos(etapa.procesadores, w);
    lema_activos_tras_cambio(etapa.procesadores, w, etapa.vista_de(w).tras_paso(paso).procesador);
}

/// One more turn, after turns that conserve, conserves too.
proof fn lema_turno(
    inicial: EtapaCribado,
    previas: Seq<TransaccionAutorizada>,
    antes: EtapaCribado,
    w: int,
    paso: PasoIA,
)
    requires
        inicial.conserva(previas, antes),
        0 <= w < antes.procesadores.len(),
        antes.vista_de(w).paso_posible(paso),
    ensures
        inicial.conserva(
            match paso {
                PasoIA::Descarto(transaccion) => previas.push(transaccion),
                _ => previas,
            },
            antes.tras_turno(w, paso),
        ),
{
    broadcast use vstd::multiset::group_multiset_axioms;

    let despues = antes.tras_turno(w, paso);
    let nuevas = match paso {
        PasoIA::Descarto(transaccion) => previas.push(transaccion),
        _ => previas,
    };
    let viejo = antes.procesadores[w];
    let nuevo = despues.procesadores[w];
    lema_activo_entre_activos(antes.procesadores, w);
    lema_activos_tras_cambio(antes.procesadores, w, nuevo);
    lema_retenidas_tras_cambio(antes.procesadores, w, nuevo);
    assert(inicial.mismos_procesadores(despues)) by {
        assert forall|i: int| 0 <= i < inicial.procesadores.len() implies {
            &&& (#[trigger] despues.procesadores[i]).id == inicial.procesadores[i].id
            &&& despues.procesadores[i].semilla == inicial.procesadores[i].semilla
            &&& despues.procesadores[i].umbral == inicial.procesadores[i].umbral
            &&& despues.procesadores[i].demora_maxima == inicial.procesadores[i].demora_maxima
        } by {
            assert(antes.procesadores[i].id == inicial.procesadores[i].id);
        }
    }
    match viejo.estado {
        EstadoIA::Libre => {
            if antes.autorizadas.elementos.len() > 0 {
                lema_quitar_primera(antes.autorizadas.elementos);
            }
        },
        EstadoIA::Evaluando(t) => {
            if paso is Valido {
                lema_agregar_ultima(antes.validas.elementos, t);
            } else {
                lema_agregar_ultima(previas, t);
            }
        },
        EstadoIA::Terminado => {},
    }
    assert forall|t: TransaccionAutorizada|
        despues.transacciones_en_la_etapa().add(nuevas.to_multiset()).count(t)
            == inicial.transacciones_en_la_etapa().count(t) by {
        assert(antes.transacciones_en_la_etapa().add(previas.to_multiset()).count(t)
            == inicial.transacciones_en_la_etapa().count(t));
        assert(retenidas(despues.procesadores).add(retenida_por(viejo.estado)).count(t)
            == retenidas(antes.procesadores).add(retenida_por(nuevo.estado)).count(t));
    }
    assert(despues.transacciones_en_la_etapa().add(nuevas.to_multiset())
        =~= inicial.transacciones_en_la_etapa());
    assert(despues.validas.elementos.subrange(0, inicial.validas.elementos.len() as int)
        == inicial.validas.elementos) by {
        assert(antes.validas.elementos.subrange(0, inicial.validas.elementos.len() as int)
            == inicial.validas.elementos);
    }
    if antes.termina_agotada() && despues.alguno_termino() {
        let i = choose|i: int|
            0 <= i < despues.procesadores.len() && (#[trigger] despues.procesadores[i]).estado is Terminado;
        if i != w {
            assert(antes.procesadores[i].estado is Terminado);
        }
    }
    if forall|i: int|
        0 <= i < inicial.procesadores.len() ==> (#[trigger] inicial.procesadores[i]).umbral == 0 {
        assert(inicial.procesadores[w].umbral == 0);
        assert(antes.procesadores[w].umbral == inicial.procesadores[w].umbral);
    }
    if forall|i: int|
        0 <= i < inicial.procesadores.len() ==> (#[trigger] inicial.procesadores[i]).umbral
            >= PARTES_POR_UNIDAD {
        assert(inicial.procesadores[w].umbral >= PARTES_POR_UNIDAD);
        assert(antes.procesadores[w].umbral == inicial.procesadores[w].umbral);
        assert(despues.validas.elementos == inicial.validas.elementos);
    }
}

/// Changing one worker changes the number of active workers by what that
/// worker contributes to it.
proof fn lema_activos_tras_cambio(
    procesadores: Seq<ProcesadorIAView>,
    w: int,
    nuevo: ProcesadorIAView,
)
    requires
        0 <= w < procesadores.len(),
    ensures
        activos(procesadores.update(w, nuevo)) + (if procesadores[w].estado is Terminado {
            0nat
        } else {
            1nat
        }) == activos(procesadores) + (if nuevo.estado is Terminado {
            0nat
        } else {
            1nat
        }),
    decreases procesadores.len(),
{
    if w == procesadores.len() - 1 {
        assert(procesadores.update(w, nuevo).drop_last() == procesadores.drop_last());
    } else {
        assert(procesadores.update(w, nuevo).drop_last() == procesadores.drop_last().update(
            w,
            nuevo,
        ));
        lema_activos_tras_cambio(procesadores.drop_last(), w, nuevo);
    }
}

/// Where one worker is active, the count of active workers is not zero.
proof fn lema_activo_entre_activos(procesadores: Seq<ProcesadorIAView>, w: int)
    requires
        0 <= w < procesadores.len(),
    ensures
        !(procesadores[w].estado is Terminado) ==> activos(procesadores) > 0,
    decreases procesadores.len(),
{
    if w < procesadores.len() - 1 {
        lema_activo_entre_activos(procesadores.drop_last(), w);
    }
}

/// Workers that are all free or finished hold no transaction.
proof fn lema_sin_retenidas(procesadores: Seq<ProcesadorIAView>)
    requires
        forall|i: int|
            0 <= i < procesadores.len() ==> (#[trigger] procesadores[i]).estado is Libre
                || procesadores[i].estado is Terminado,
    ensures
        retenidas(procesadores) == Multiset::<TransaccionAutorizada>::empty(),
    decreases procesadores.len(),
{
    broadcast use vstd::multiset::group_multiset_axioms;

    if procesadores.len() > 0 {
        lema_sin_retenidas(procesadores.drop_last());
        assert(retenidas(procesadores) =~= Multiset::<TransaccionAutorizada>::empty());
    }
}

/// Changing one worker changes what the workers hold by what that worker
/// held and what it holds now.
proof fn lema_retenidas_tras_cambio(
    procesadores: Seq<ProcesadorIAView>,
    w: int,
    nuevo: ProcesadorIAView,
)
    requires
        0 <= w < procesadores.len(),
    ensures
        retenidas(procesadores.update(w, nuevo)).add(retenida_por(procesadores[w].estado))
            == retenidas(procesadores).add(retenida_por(nuevo.estado)),
    decreases procesadores.len(),
{
    broadcast use vstd::multiset::group_multiset_axioms;

    let cambiados = procesadores.update(w, nuevo);
    let resto = procesadores.drop_last();
    assert(retenidas(procesadores) == retenidas(resto).add(
        retenida_por(procesadores.last().estado),
    ));
    assert(retenidas(cambiados) == retenidas(cambiados.drop_last()).add(
        retenida_por(cambiados.last().estado),
    ));
    if w == procesadores.len() - 1 {
        assert(cambiados.drop_last() == resto);
        assert(cambiados.last() == nuevo);
    } else {
        assert(cambiados.drop_last() == resto.update(w, nuevo));
        assert(cambiados.last() == procesadores.last());
        assert(resto[w] == procesadores[w]);
        lema_retenidas_tras_cambio(resto, w, nuevo);
        assert forall|t: TransaccionAutorizada|
            retenidas(cambiados).add(retenida_por(procesadores[w].estado)).count(t) == retenidas(
                procesadores,
            ).add(retenida_por(nuevo.estado)).count(t) by {
            assert(retenidas(resto.update(w, nuevo)).add(retenida_por(resto[w].estado)).count(t)
                == retenidas(resto).add(retenida_por(nuevo.estado)).count(t));
        }
    }
    assert(retenidas(cambiados).add(retenida_por(procesadores[w].estado)) =~= retenidas(
        procesadores,
    ).add(retenida_por(nuevo.estado)));
}

} // verus!
