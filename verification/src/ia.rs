//! Fraud screening.
//!
//! A screening worker takes an authorized transaction, draws a latency for
//! it, then draws a fraction between zero and one: a fraction below the
//! threshold flags the transaction, which is discarded; any other lets it
//! through, unchanged, to the queue of valid transactions. Each worker owns
//! its generator, seeded from the seed of the pool and the number of the
//! worker, so that what a worker draws does not depend on its siblings.
//!
//! Fractions and thresholds are counted in parts of 2^53.

use vstd::prelude::*;
use rand::rngs::StdRng;
use crate::azar::{generador_con_semilla, sortear_bits, sortear_menor_que};
use crate::cola::{Cola, ColaView, Recepcion};
use crate::fraccion::{fraccion_de, por_debajo, PARTES_POR_UNIDAD, UN_DECIMO};
use crate::transaccion::TransaccionAutorizada;

verus! {

/// The threshold at which a transaction is flagged, unless another is
/// chosen.
pub const PROBABILIDAD_DE_INVALIDA: u64 = UN_DECIMO;

/// The longest latency of one screening, in milliseconds: every latency drawn
/// is below it.
pub const TIEMPO_MAXIMO_IA: u64 = 25;

/// Whether a draw flags a transaction: whether its fraction is below the
/// threshold.
pub open spec fn es_lavado(bits: u64, umbral: u64) -> bool {
    fraccion_de(bits) < umbral
}

/// Where a screening worker stands in its cycle.
#[derive(Debug)]
pub enum EstadoIA {
    /// Holding nothing; the next step takes a transaction.
    Libre,
    /// Holding a transaction whose latency was drawn; the next step decides
    /// on it.
    Evaluando(TransaccionAutorizada),
    /// Finished: the input was closed and drained.
    Terminado,
}

/// How a step of a screening worker ended.
#[derive(Debug)]
pub enum PasoIA {
    /// The worker took a transaction; screening it takes `demora`
    /// milliseconds.
    Tomo { demora: u64 },
    /// The worker let its transaction through to the valid ones.
    Valido,
    /// The worker flagged its transaction and hands it over to be discarded.
    Descarto(TransaccionAutorizada),
    /// The input queue is empty and still open.
    Bloqueado,
    /// The worker has finished.
    Termino,
}

/// What a screening worker is, to the contracts. Its generator is not part of
/// it.
pub struct ProcesadorIAView {
    pub id: u32,
    /// The seed that the worker's generator was made with.
    pub semilla: u64,
    pub umbral: u64,
    pub demora_maxima: u64,
    pub estado: EstadoIA,
}

/// The screening stage as one worker sees it: the worker and its two queues.
pub struct Cribado {
    pub procesador: ProcesadorIAView,
    pub autorizadas: ColaView<TransaccionAutorizada>,
    pub validas: ColaView<TransaccionAutorizada>,
}

impl Cribado {
    /// Whether the next step of the worker may send to the queue of valid
    /// transactions.
    pub open spec fn puede_enviar(self) -> bool {
        self.procesador.estado is Evaluando && self.procesador.umbral < PARTES_POR_UNIDAD
    }

    /// Whether the worker may send to the queue of valid transactions before
    /// it next blocks or ends.
    pub open spec fn puede_enviar_antes_de_parar(self) -> bool {
        self.procesador.umbral < PARTES_POR_UNIDAD && (self.procesador.estado is Evaluando || (
        self.procesador.estado is Libre && self.autorizadas.elementos.len() > 0))
    }

    /// Whether the next step of the worker can end as `paso`. How a step ends
    /// is fixed but for its two draws: the latency, which is below the
    /// worker's maximum, and the fraction, which decides between letting
    /// through and discarding. A threshold of zero never discards; a
    /// threshold of all the parts always does.
    pub open spec fn paso_posible(self, paso: PasoIA) -> bool {
        match self.procesador.estado {
            EstadoIA::Libre => match self.autorizadas.frente() {
                Recepcion::Elemento(_) => {
                    &&& paso is Tomo
                    &&& paso->demora <= self.procesador.demora_maxima
                    &&& self.procesador.demora_maxima > 0 ==> paso->demora
                        < self.procesador.demora_maxima
                },
                Recepcion::Vacia => paso is Bloqueado,
                Recepcion::Cerrada => paso is Termino,
            },
            EstadoIA::Evaluando(transaccion) => {
                ||| paso is Valido && self.procesador.umbral < PARTES_POR_UNIDAD
                ||| paso == PasoIA::Descarto(transaccion) && self.procesador.umbral > 0
            },
            EstadoIA::Terminado => paso is Termino,
        }
    }

    /// The stage after a step of the worker that ended as `paso`.
    pub open spec fn tras_paso(self, paso: PasoIA) -> Cribado {
        match self.procesador.estado {
            EstadoIA::Libre => match self.autorizadas.frente() {
                Recepcion::Elemento(transaccion) => Cribado {
                    procesador: ProcesadorIAView {
                        estado: EstadoIA::Evaluando(transaccion),
                        ..self.procesador
                    },
                    autorizadas: self.autorizadas.tras_recibir(),
                    ..self
                },
                Recepcion::Vacia => self,
                Recepcion::Cerrada => Cribado {
                    procesador: ProcesadorIAView {
                        estado: EstadoIA::Terminado,
                        ..self.procesador
                    },
                    validas: self.validas.tras_retirar(),
                    ..self
                },
            },
            EstadoIA::Evaluando(transaccion) => Cribado {
                procesador: ProcesadorIAView { estado: EstadoIA::Libre, ..self.procesador },
                validas: if paso is Valido {
                    self.validas.tras_enviar(transaccion)
                } else {
                    self.validas
                },
                ..self
            },
            EstadoIA::Terminado => self,
        }
    }
}

/// Whether `todas`, in its order, is made of `validas` and `descartadas`,
/// each in its order: whether every item of `todas` went to exactly one of
/// the two and none changed places within it.
pub open spec fn es_reparto(
    todas: Seq<TransaccionAutorizada>,
    validas: Seq<TransaccionAutorizada>,
    descartadas: Seq<TransaccionAutorizada>,
) -> bool
    decreases todas.len(),
{
    if todas.len() == 0 {
        validas.len() == 0 && descartadas.len() == 0
    } else {
        ||| (validas.len() > 0 && validas.last() == todas.last() && es_reparto(
            todas.drop_last(),
            validas.drop_last(),
            descartadas,
        ))
        ||| (descartadas.len() > 0 && descartadas.last() == todas.last() && es_reparto(
            todas.drop_last(),
            validas,
            descartadas.drop_last(),
        ))
    }
}

/// Whether a run of steps can lead from `antes` to `despues`, end as
/// `parada` and flag `descartadas`.
///
/// A worker that had finished does nothing. Any other drains its input and
/// stops free, on an open input, or finished, on a closed one, in which case
/// it has retired from the queue of valid transactions. Every transaction that
/// it held or found in its input has gone to exactly one of the two, the queue
/// of valid transactions or the flagged ones, and kept its place among those
/// that went the same way. A threshold of zero flags none; a threshold of all
/// the parts lets none through.
pub open spec fn resultado_de_cribar(
    antes: Cribado,
    parada: Parada,
    descartadas: Seq<TransaccionAutorizada>,
    despues: Cribado,
) -> bool {
    &&& despues.procesador.id == antes.procesador.id
    &&& despues.procesador.semilla == antes.procesador.semilla
    &&& despues.procesador.umbral == antes.procesador.umbral
    &&& despues.procesador.demora_maxima == antes.procesador.demora_maxima
    &&& antes.procesador.estado is Terminado ==> {
        &&& parada == Parada::Termino
        &&& descartadas.len() == 0
        &&& despues.procesador.estado is Terminado
        &&& despues.autorizadas == antes.autorizadas
        &&& despues.validas == antes.validas
    }
    &&& !(antes.procesador.estado is Terminado) ==> {
        &&& despues.autorizadas == (ColaView {
            elementos: Seq::<TransaccionAutorizada>::empty(),
            ..antes.autorizadas
        })
        &&& despues.validas.elementos.len() >= antes.validas.elementos.len()
        &&& despues.validas.elementos.subrange(0, antes.validas.elementos.len() as int)
            == antes.validas.elementos
        &&& es_reparto(
            por_cribar(antes.procesador.estado, antes.autorizadas.elementos),
            despues.validas.elementos.subrange(
                antes.validas.elementos.len() as int,
                despues.validas.elementos.len() as int,
            ),
            descartadas,
        )
        &&& antes.procesador.umbral == 0 ==> descartadas.len() == 0
        &&& antes.procesador.umbral >= PARTES_POR_UNIDAD ==> despues.validas.elementos
            == antes.validas.elementos
        &&& antes.autorizadas.cerrada ==> {
            &&& parada == Parada::Termino
            &&& despues.procesador.estado is Terminado
            &&& despues.validas.productores == antes.validas.tras_retirar().productores
            &&& despues.validas.cerrada == antes.validas.tras_retirar().cerrada
        }
        &&& !antes.autorizadas.cerrada ==> {
            &&& parada == Parada::Bloqueado
            &&& despues.procesador.estado is Libre
            &&& despues.validas.productores == antes.validas.productores
            &&& despues.validas.cerrada == antes.validas.cerrada
        }
    }
}

/// The seed of the worker `id` of a pool seeded with `semilla`: the two
/// added, wrapping round.
pub open spec fn semilla_de(semilla: u64, id: u32) -> u64 {
    ((semilla + id) % 0x1_0000_0000_0000_0000) as u64
}

/// How a run of steps ended.
#[derive(Debug, Clone, Copy, PartialEq, Eq, Structural)]
pub enum Parada {
    /// The input queue is empty and still open.
    Bloqueado,
    /// The worker has finished.
    Termino,
}

/// One screening worker.
#[derive(Debug)]
pub struct ProcesadorIA {
    id: u32,
    semilla: u64,
    umbral: u64,
    demora_maxima: u64,
    rng: StdRng,
    estado: EstadoIA,
}

impl View for ProcesadorIA {
    type V = ProcesadorIAView;

    closed spec fn view(&self) -> ProcesadorIAView {
        ProcesadorIAView {
            id: self.id,
            semilla: self.semilla,
            umbral: self.umbral,
            demora_maxima: self.demora_maxima,
            estado: self.estado,
        }
    }
}

impl ProcesadorIA {
    /// A worker with the threshold of one tenth and the usual longest
    /// latency, whose generator is seeded with `semilla`, registered as a
    /// producer of the queue of valid transactions.
    pub fn iniciar(id: u32, semilla: u64, validas: &mut Cola<TransaccionAutorizada>) -> (procesador:
        Self)
        requires
            old(validas)@.productores < usize::MAX,
        ensures
            procesador@ == (ProcesadorIAView {
                id,
                semilla,
                umbral: PROBABILIDAD_DE_INVALIDA,
                demora_maxima: TIEMPO_MAXIMO_IA,
                estado: EstadoIA::Libre,
            }),
            final(validas)@ == old(validas)@.tras_registrar(),
    {
        Self::configurar(id, semilla, PROBABILIDAD_DE_INVALIDA, TIEMPO_MAXIMO_IA, validas)
    }

    /// A worker with a threshold and a longest latency of its own. A
    /// threshold of all the parts or more discards everything; a longest
    /// latency of zero draws no latency.
    pub fn configurar(
        id: u32,
        semilla: u64,
        umbral: u64,
        demora_maxima: u64,
        validas: &mut Cola<TransaccionAutorizada>,
    ) -> (procesador: Self)
        requires
            old(validas)@.productores < usize::MAX,
        ensures
            procesador@ == (ProcesadorIAView {
                id,
                semilla,
                umbral,
                demora_maxima,
                estado: EstadoIA::Libre,
            }),
            final(validas)@ == old(validas)@.tras_registrar(),
    {
        validas.registrar_productor();
        ProcesadorIA {
            id,
            semilla,
            umbral,
            demora_maxima,
            rng: generador_con_semilla(semilla),
            estado: EstadoIA::Libre,
        }
    }

    /// The number of the worker in its pool.
    pub fn id(&self) -> (id: u32)
        ensures
            id == self@.id,
    {
        self.id
    }

    /// The threshold of the worker, in parts.
    pub fn umbral(&self) -> (umbral: u64)
        ensures
            umbral == self@.umbral,
    {
        self.umbral
    }

    /// The transaction that the worker holds while it decides on it, if any.
    pub fn retenida(&self) -> (transaccion: Option<&TransaccionAutorizada>)
        ensures
            match self@.estado {
                EstadoIA::Evaluando(t) => transaccion == Some(&t),
                _ => transaccion is None,
            },
    {
        match &self.estado {
            EstadoIA::Evaluando(t) => Some(t),
            _ => None,
        }
    }

    /// Whether the worker has still steps to take.
    pub fn esta_activo(&self) -> (activo: bool)
        ensures
            activo == !(self@.estado is Terminado),
    {
        match &self.estado {
            EstadoIA::Terminado => false,
            _ => true,
        }
    }

    /// Decides on a transaction from the 64 bits drawn for it: below the
    /// threshold it is flagged and comes back as the error; otherwise it
    /// comes back as it is, to be let through.
    pub fn detectar_lavado(transaccion: TransaccionAutorizada, bits: u64, umbral: u64) -> (r: Result<
        TransaccionAutorizada,
        TransaccionAutorizada,
    >)
        ensures
            es_lavado(bits, umbral) ==> r == Err::<TransaccionAutorizada, TransaccionAutorizada>(
                transaccion,
            ),
            !es_lavado(bits, umbral) ==> r == Ok::<TransaccionAutorizada, TransaccionAutorizada>(
                transaccion,
            ),
    {
        if por_debajo(bits, umbral) {
            Err(transaccion)
        } else {
            Ok(transaccion)
        }
    }

    /// Takes one step: a free worker takes a transaction and draws its
    /// latency; a worker that holds one draws a fraction and lets the
    /// transaction through or hands it over as discarded. A worker that finds
    /// its input closed and drained retires from the queue of valid
    /// transactions and stays finished.
    ///
    /// The queue of valid transactions must be open if this step may send to
    /// it.
    pub fn paso(
        &mut self,
        autorizadas: &mut Cola<TransaccionAutorizada>,
        validas: &mut Cola<TransaccionAutorizada>,
    ) -> (r: PasoIA)
        requires
            (Cribado {
                procesador: old(self)@,
                autorizadas: old(autorizadas)@,
                validas: old(validas)@,
            }).puede_enviar() ==> !old(validas)@.cerrada,
        ensures
            (Cribado {
                procesador: old(self)@,
                autorizadas: old(autorizadas)@,
                validas: old(validas)@,
            }).paso_posible(r),
            (Cribado {
                procesador: final(self)@,
                autorizadas: final(autorizadas)@,
                validas: final(validas)@,
            }) == (Cribado {
                procesador: old(self)@,
                autorizadas: old(autorizadas)@,
                validas: old(validas)@,
            }).tras_paso(r),
    {
        let mut estado = EstadoIA::Terminado;
        std::mem::swap(&mut self.estado, &mut estado);
        match estado {
            EstadoIA::Libre => match autorizadas.recibir() {
                Recepcion::Elemento(transaccion) => {
                    let demora = if self.demora_maxima > 0 {
                        sortear_menor_que(&mut self.rng, self.demora_maxima)
                    } else {
                        0
                    };
                    self.estado = EstadoIA::Evaluando(transaccion);
                    PasoIA::Tomo { demora }
                },
                Recepcion::Vacia => {
                    self.estado = EstadoIA::Libre;
                    PasoIA::Bloqueado
                },
                Recepcion::Cerrada => {
                    validas.retirar_productor();
                    PasoIA::Termino
                },
            },
            EstadoIA::Evaluando(transaccion) => {
                let bits = sortear_bits(&mut self.rng);
                self.estado = EstadoIA::Libre;
                match Self::detectar_lavado(transaccion, bits, self.umbral) {
                    Ok(valida) => {
                        let _ = validas.enviar(valida);
                        PasoIA::Valido
                    },
                    Err(invalida) => PasoIA::Descarto(invalida),
                }
            },
            EstadoIA::Terminado => PasoIA::Termino,
        }
    }

    /// Takes steps until the worker blocks on an empty input or finishes, and
    /// returns how the run ended and the transactions that were flagged, in
    /// the order in which they were taken. The latency drawn for each
    /// transaction is not waited for.
    ///
    /// Every transaction that the worker held or found in its input has gone
    /// to exactly one of the two: to the queue of valid transactions or to
    /// the flagged ones.
    ///
    /// The queue of valid transactions must be open if any step may send to
    /// it.
    pub fn procesar_transacciones(
        &mut self,
        autorizadas: &mut Cola<TransaccionAutorizada>,
        validas: &mut Cola<TransaccionAutorizada>,
    ) -> (r: (Parada, Vec<TransaccionAutorizada>))
        requires
            (Cribado {
                procesador: old(self)@,
                autorizadas: old(autorizadas)@,
                validas: old(validas)@,
            }).puede_enviar_antes_de_parar() ==> !old(validas)@.cerrada,
        ensures
            resultado_de_cribar(
                Cribado {
                    procesador: old(self)@,
                    autorizadas: old(autorizadas)@,
                    validas: old(validas)@,
                },
                r.0,
                r.1@,
                Cribado {
                    procesador: final(self)@,
                    autorizadas: final(autorizadas)@,
                    validas: final(validas)@,
                },
            ),
    {
        let mut descartadas: Vec<TransaccionAutorizada> = Vec::new();
        let ghost todas = por_cribar(self@.estado, autorizadas@.elementos);
        let ghost mut vistas: Seq<TransaccionAutorizada> = Seq::empty();
        let ghost mut nuevas: Seq<TransaccionAutorizada> = Seq::empty();
        if !self.esta_activo() {
            return (Parada::Termino, descartadas);
        }
        assert(validas@.elementos == old(validas)@.elementos + nuevas);
        assert(todas == vistas + por_cribar(self@.estado, autorizadas@.elementos));
        loop
            invariant
                self@.id == old(self)@.id,
                self@.semilla == old(self)@.semilla,
                self@.umbral == old(self)@.umbral,
                self@.demora_maxima == old(self)@.demora_maxima,
                !(self@.estado is Terminado),
                !(old(self)@.estado is Terminado),
                autorizadas@.cerrada == old(autorizadas)@.cerrada,
                autorizadas@.productores == old(autorizadas)@.productores,
                validas@.cerrada == old(validas)@.cerrada,
                validas@.productores == old(validas)@.productores,
                validas@.elementos == old(validas)@.elementos + nuevas,
                todas == por_cribar(old(self)@.estado, old(autorizadas)@.elementos),
                todas == vistas + por_cribar(self@.estado, autorizadas@.elementos),
                es_reparto(vistas, nuevas, descartadas@),
                self@.umbral == 0 ==> descartadas@.len() == 0,
                self@.umbral >= PARTES_POR_UNIDAD ==> nuevas.len() == 0,
                (self@.umbral < PARTES_POR_UNIDAD && todas.len() > vistas.len()) ==> !validas@.cerrada,
            decreases 2 * autorizadas@.elementos.len() + (if self@.estado is Evaluando {
                1nat
            } else {
                0nat
            }),
        {
            let ghost antes = self@.estado;
            let ghost cola_antes = autorizadas@.elementos;
            match self.paso(autorizadas, validas) {
                PasoIA::Tomo { demora: _ } => {
                    proof {
                        assert(por_cribar(antes, cola_antes) == por_cribar(
                            self@.estado,
                            autorizadas@.elementos,
                        ));
                    }
                },
                PasoIA::Valido => {
                    proof {
                        let ghost t = antes->Evaluando_0;
                        assert(por_cribar(antes, cola_antes) == seq![t] + autorizadas@.elementos);
                        assert(vistas.push(t).drop_last() == vistas);
                        assert(nuevas.push(t).drop_last() == nuevas);
                        vistas = vistas.push(t);
                        nuevas = nuevas.push(t);
                        assert(todas == vistas + por_cribar(self@.estado, autorizadas@.elementos));
                    }
                },
                PasoIA::Descarto(transaccion) => {
                    proof {
                        assert(por_cribar(antes, cola_antes) == seq![transaccion]
                            + autorizadas@.elementos);
                        assert(vistas.push(transaccion).drop_last() == vistas);
                        assert(descartadas@.push(transaccion).drop_last() == descartadas@);
                        vistas = vistas.push(transaccion);
                        assert(todas == vistas + por_cribar(self@.estado, autorizadas@.elementos));
                    }
                    descartadas.push(transaccion);
                },
                PasoIA::Bloqueado => {
                    proof {
                        assert(autorizadas@.elementos == Seq::<TransaccionAutorizada>::empty());
                        assert(todas == vistas);
                        assert(validas@.elementos.subrange(
                            0,
                            old(validas)@.elementos.len() as int,
                        ) == old(validas)@.elementos);
                        if self@.umbral >= PARTES_POR_UNIDAD {
                            assert(validas@.elementos == old(validas)@.elementos);
                        }
                        assert(nuevas == validas@.elementos.subrange(
                            old(validas)@.elementos.len() as int,
                            validas@.elementos.len() as int,
                        ));
                    }
                    return (Parada::Bloqueado, descartadas);
                },
                PasoIA::Termino => {
                    proof {
                        assert(autorizadas@.elementos == Seq::<TransaccionAutorizada>::empty());
                        assert(todas == vistas);
                        assert(validas@.elementos.subrange(
                            0,
                            old(validas)@.elementos.len() as int,
                        ) == old(validas)@.elementos);
                        if self@.umbral >= PARTES_POR_UNIDAD {
                            assert(validas@.elementos == old(validas)@.elementos);
                        }
                        assert(nuevas == validas@.elementos.subrange(
                            old(validas)@.elementos.len() as int,
                            validas@.elementos.len() as int,
                        ));
                    }
                    return (Parada::Termino, descartadas);
                },
            }
        }
    }
}

/// The transactions that a worker has still to decide on: the one it holds,
/// if it holds one, then those of its input.
pub open spec fn por_cribar(
    estado: EstadoIA,
    autorizadas: Seq<TransaccionAutorizada>,
) -> Seq<TransaccionAutorizada> {
    match estado {
        EstadoIA::Evaluando(transaccion) => seq![transaccion] + autorizadas,
        _ => autorizadas,
    }
}

/// Starts a pool of `n_procesadores` screening workers, numbered from zero,
/// each with the threshold of one tenth and the usual longest latency, each
/// registered as a producer of the queue of valid transactions. The worker
/// `i` seeds its generator with the seed of the pool plus `i`.
pub fn iniciar_procesadores_ia(
    n_procesadores: u32,
    tx_transacciones_validas: &mut Cola<TransaccionAutorizada>,
    semilla: u64,
) -> (procesadores: Vec<ProcesadorIA>)
    requires
        old(tx_transacciones_validas)@.productores + n_procesadores <= usize::MAX,
    ensures
        procesadores.len() == n_procesadores,
        forall|i: int|
            0 <= i < n_procesadores ==> (#[trigger] procesadores[i])@ == (ProcesadorIAView {
                id: i as u32,
                semilla: semilla_de(semilla, i as u32),
                umbral: PROBABILIDAD_DE_INVALIDA,
                demora_maxima: TIEMPO_MAXIMO_IA,
                estado: EstadoIA::Libre,
            }),
        final(tx_transacciones_validas)@ == (ColaView {
            productores: (old(tx_transacciones_validas)@.productores + n_procesadores) as nat,
            ..old(tx_transacciones_validas)@
        }),
{
    configurar_procesadores_ia(
        n_procesadores,
        tx_transacciones_validas,
        semilla,
        PROBABILIDAD_DE_INVALIDA,
        TIEMPO_MAXIMO_IA,
    )
}

/// Starts a pool of `n_procesadores` screening workers as
/// `iniciar_procesadores_ia` does, with a threshold and a longest latency of
/// the caller's choosing, the same for every worker.
pub fn configurar_procesadores_ia(
    n_procesadores: u32,
    tx_transacciones_validas: &mut Cola<TransaccionAutorizada>,
    semilla: u64,
    umbral: u64,
    demora_maxima: u64,
) -> (procesadores: Vec<ProcesadorIA>)
    requires
        old(tx_transacciones_validas)@.productores + n_procesadores <= usize::MAX,
    ensures
        procesadores.len() == n_procesadores,
        forall|i: int|
            0 <= i < n_procesadores ==> (#[trigger] procesadores[i])@ == (ProcesadorIAView {
                id: i as u32,
                semilla: semilla_de(semilla, i as u32),
                umbral,
                demora_maxima,
                estado: EstadoIA::Libre,
            }),
        final(tx_transacciones_validas)@ == (ColaView {
            productores: (old(tx_transacciones_validas)@.productores + n_procesadores) as nat,
            ..old(tx_transacciones_validas)@
        }),
{
    let mut procesadores: Vec<ProcesadorIA> = Vec::new();
    let mut procesador_id: u32 = 0;
    while procesador_id < n_procesadores
        invariant
            procesador_id <= n_procesadores,
            procesadores.len() == procesador_id,
            old(tx_transacciones_validas)@.productores + n_procesadores <= usize::MAX,
            forall|i: int|
                0 <= i < procesador_id ==> (#[trigger] procesadores[i])@ == (ProcesadorIAView {
                    id: i as u32,
                    semilla: semilla_de(semilla, i as u32),
                    umbral,
                    demora_maxima,
                    estado: EstadoIA::Libre,
                }),
            tx_transacciones_validas@ == (ColaView {
                productores: (old(tx_transacciones_validas)@.productores + procesador_id) as nat,
                ..old(tx_transacciones_validas)@
            }),
        decreases n_procesadores - procesador_id,
    {
        let semilla_propia = semilla.wrapping_add(procesador_id as u64);
        let procesador = ProcesadorIA::configurar(
            procesador_id,
            semilla_propia,
            umbral,
            demora_maxima,
            tx_transacciones_validas,
        );
        procesadores.push(procesador);
        procesador_id = procesador_id + 1;
    }
    procesadores
}

/// A screening worker with a switch: it screens without latency, at the
/// threshold of one tenth, until it is switched off from outside.
#[derive(Debug)]
pub struct AI {
    procesador: ProcesadorIA,
    apagado: bool,
}

impl AI {
    /// The screening worker inside.
    pub closed spec fn procesador(&self) -> ProcesadorIAView {
        self.procesador@
    }

    /// Whether the worker was switched off.
    pub closed spec fn apagado(&self) -> bool {
        self.apagado
    }

    /// A worker that is switched on, whose generator is seeded with
    /// `semilla`, registered as a producer of the queue of valid
    /// transactions.
    pub fn new(transacciones_validas: &mut Cola<TransaccionAutorizada>, semilla: u64) -> (ai: Self)
        requires
            old(transacciones_validas)@.productores < usize::MAX,
        ensures
            !ai.apagado(),
            ai.procesador() == (ProcesadorIAView {
                id: 0,
                semilla,
                umbral: PROBABILIDAD_DE_INVALIDA,
                demora_maxima: 0,
                estado: EstadoIA::Libre,
            }),
            final(transacciones_validas)@ == old(transacciones_validas)@.tras_registrar(),
    {
        AI {
            procesador: ProcesadorIA::configurar(
                0,
                semilla,
                PROBABILIDAD_DE_INVALIDA,
                0,
                transacciones_validas,
            ),
            apagado: false,
        }
    }

    /// Screens what the input holds, as `ProcesadorIA::procesar_transacciones`
    /// does, unless the worker was switched off: then it touches nothing and
    /// returns no run at all.
    pub fn detectar_lavado(
        &mut self,
        transacciones_auth: &mut Cola<TransaccionAutorizada>,
        transacciones_validas: &mut Cola<TransaccionAutorizada>,
    ) -> (r: Option<(Parada, Vec<TransaccionAutorizada>)>)
        requires
            !old(self).apagado() && (Cribado {
                procesador: old(self).procesador(),
                autorizadas: old(transacciones_auth)@,
                validas: old(transacciones_validas)@,
            }).puede_enviar_antes_de_parar() ==> !old(transacciones_validas)@.cerrada,
        ensures
            final(self).apagado() == old(self).apagado(),
            old(self).apagado() ==> {
                &&& r is None
                &&& final(self).procesador() == old(self).procesador()
                &&& final(transacciones_auth)@ == old(transacciones_auth)@
                &&& final(transacciones_validas)@ == old(transacciones_validas)@
            },
            !old(self).apagado() ==> r is Some && resultado_de_cribar(
                Cribado {
                    procesador: old(self).procesador(),
                    autorizadas: old(transacciones_auth)@,
                    validas: old(transacciones_validas)@,
                },
                r->Some_0.0,
                r->Some_0.1@,
                Cribado {
                    procesador: final(self).procesador(),
                    autorizadas: final(transacciones_auth)@,
                    validas: final(transacciones_validas)@,
                },
            ),
    {
        if self.apagado {
            None
        } else {
            Some(self.procesador.procesar_transacciones(transacciones_auth, transacciones_validas))
        }
    }

    /// Switches the worker off. Switching it off twice is switching it off
    /// once.
    pub fn cerrar(&mut self)
        ensures
            final(self).apagado(),
            final(self).procesador() == old(self).procesador(),
    {
        self.apagado = true;
    }
}

} // verus!
