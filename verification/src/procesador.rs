//! The classifying reader: the first stage of the pipeline.
//!
//! It takes the records of the transaction log in the order of the log and
//! routes each one to the queue of its kind. A record that could not be read
//! stops the stage for good: what came before it has been routed, nothing
//! after it is. Either way both queues are closed when the stage ends.

use vstd::prelude::*;
use crate::cola::{Cola, ColaView};
use crate::multiconjuntos::{lema_agregar_ultima, lema_vacia_sin_elementos};
use crate::transaccion::{TipoTransaccion, Transaccion};

verus! {

/// A record of the log that could not be read as a transaction.
#[derive(Debug)]
pub struct ErrorLectura {
    /// Line of the log on which the record stands.
    pub linea: u64,
}

/// The transactions of `ts` that are of kind `tipo`, in the order of `ts`.
pub open spec fn de_tipo(ts: Seq<Transaccion>, tipo: TipoTransaccion) -> Seq<Transaccion>
    decreases ts.len(),
{
    if ts.len() == 0 {
        Seq::empty()
    } else if ts.last().tipo == tipo {
        de_tipo(ts.drop_last(), tipo).push(ts.last())
    } else {
        de_tipo(ts.drop_last(), tipo)
    }
}

/// Position of the first record at or after `desde` that could not be read;
/// the length of the log if there is none.
pub open spec fn primer_malformado(
    registros: Seq<Result<Transaccion, ErrorLectura>>,
    desde: int,
) -> int
    decreases registros.len() - desde,
{
    if desde < 0 || desde >= registros.len() {
        registros.len() as int
    } else if registros[desde] is Err {
        desde
    } else {
        primer_malformado(registros, desde + 1)
    }
}

/// The transactions that stand before the first unreadable record.
pub open spec fn legibles(registros: Seq<Result<Transaccion, ErrorLectura>>) -> Seq<Transaccion> {
    Seq::new(primer_malformado(registros, 0) as nat, |i: int| registros[i]->Ok_0)
}

/// The classifying reader, holding the records it has still to route.
pub struct Procesador {
    registros: Vec<Result<Transaccion, ErrorLectura>>,
}

impl Procesador {
    /// The records that the reader has not routed yet.
    pub closed spec fn pendientes(&self) -> Seq<Result<Transaccion, ErrorLectura>> {
        self.registros@
    }

    /// A reader over the records of a log, in the order of the log.
    pub fn iniciar(registros: Vec<Result<Transaccion, ErrorLectura>>) -> (procesador: Self)
        ensures
            procesador.pendientes() == registros@,
    {
        Procesador { registros }
    }

    /// Routes every record up to the first unreadable one, then closes both
    /// queues. Returns the error of that record, if there is one.
    ///
    /// A queue that is to receive a transaction must be open.
    pub fn procesar(
        &mut self,
        cashin: &mut Cola<Transaccion>,
        cashout: &mut Cola<Transaccion>,
    ) -> (r: Result<(), ErrorLectura>)
        requires
            de_tipo(legibles(old(self).pendientes()), TipoTransaccion::CashIn).len() > 0 ==> !old(
                cashin,
            )@.cerrada,
            de_tipo(legibles(old(self).pendientes()), TipoTransaccion::CashOut).len() > 0 ==> !old(
                cashout,
            )@.cerrada,
        ensures
            final(self).pendientes() == Seq::<Result<Transaccion, ErrorLectura>>::empty(),
            final(cashin)@ == (ColaView {
                elementos: old(cashin)@.elementos + de_tipo(
                    legibles(old(self).pendientes()),
                    TipoTransaccion::CashIn,
                ),
                cerrada: true,
                ..old(cashin)@
            }),
            final(cashout)@ == (ColaView {
                elementos: old(cashout)@.elementos + de_tipo(
                    legibles(old(self).pendientes()),
                    TipoTransaccion::CashOut,
                ),
                cerrada: true,
                ..old(cashout)@
            }),
            primer_malformado(old(self).pendientes(), 0) == old(self).pendientes().len() ==> r
                == Ok::<(), ErrorLectura>(()),
            primer_malformado(old(self).pendientes(), 0) < old(self).pendientes().len() ==> r
                == Err::<(), ErrorLectura>(
                old(self).pendientes()[primer_malformado(old(self).pendientes(), 0)]->Err_0,
            ),
    {
        let mut registros: Vec<Result<Transaccion, ErrorLectura>> = Vec::new();
        std::mem::swap(&mut self.registros, &mut registros);
        let ghost todos = registros@;
        let ghost cashin_antes = cashin@;
        let ghost cashout_antes = cashout@;
        let mut fallo: Option<ErrorLectura> = None;
        let ghost mut vistas: Seq<Transaccion> = Seq::empty();
        proof {
            assert(cashin@.elementos + de_tipo(vistas, TipoTransaccion::CashIn)
                == cashin@.elementos);
            assert(cashout@.elementos + de_tipo(vistas, TipoTransaccion::CashOut)
                == cashout@.elementos);
        }
        for registro in it: registros.into_iter()
            invariant
                it.seq() == todos,
                fallo is None ==> {
                    &&& primer_malformado(todos, 0) == primer_malformado(todos, it.index() as int)
                    &&& vistas.len() == it.index()
                    &&& forall|i: int| 0 <= i < it.index() ==> todos[i] == Ok::<Transaccion, ErrorLectura>(#[trigger] vistas[i])
                },
                fallo is Some ==> {
                    &&& 0 <= primer_malformado(todos, 0) < it.index()
                    &&& todos[primer_malformado(todos, 0)] == Err::<Transaccion, ErrorLectura>(fallo->Some_0)
                    &&& vistas == legibles(todos)
                },
                cashin@ == (ColaView {
                    elementos: cashin_antes.elementos + de_tipo(vistas, TipoTransaccion::CashIn),
                    ..cashin_antes
                }),
                cashout@ == (ColaView {
                    elementos: cashout_antes.elementos + de_tipo(vistas, TipoTransaccion::CashOut),
                    ..cashout_antes
                }),
                de_tipo(legibles(todos), TipoTransaccion::CashIn).len() > 0 ==> !cashin_antes.cerrada,
                de_tipo(legibles(todos), TipoTransaccion::CashOut).len() > 0 ==> !cashout_antes.cerrada,
        {
            if fallo.is_none() {
                match registro {
                    Ok(transaccion) => {
                        proof {
                            let ghost nuevas = vistas.push(transaccion);
                            assert(nuevas.drop_last() == vistas);
                            lema_legibles_prefijo(todos, nuevas);
                            lema_de_tipo_prefijo(nuevas, legibles(todos), TipoTransaccion::CashIn);
                            lema_de_tipo_prefijo(nuevas, legibles(todos), TipoTransaccion::CashOut);
                            vistas = nuevas;
                        }
                        match transaccion.tipo {
                            TipoTransaccion::CashIn => {
                                let _ = cashin.enviar(transaccion);
                            },
                            TipoTransaccion::CashOut => {
                                let _ = cashout.enviar(transaccion);
                            },
                        }
                    },
                    Err(error) => {
                        proof {
                            lema_legibles_prefijo(todos, vistas);
                            assert(vistas == legibles(todos));
                        }
                        fallo = Some(error);
                    },
                }
            }
        }
        proof {
            if fallo is None {
                lema_legibles_prefijo(todos, vistas);
                assert(vistas == legibles(todos));
            }
        }
        cashin.cerrar();
        cashout.cerrar();
        match fallo {
            Some(error) => Err(error),
            None => Ok(()),
        }
    }
}

/// Classification loses nothing and invents nothing: the two queues together
/// receive as many transactions as were classified, each transaction goes to
/// exactly one of them, unchanged, and every transaction in a queue is of the
/// kind of that queue.
pub proof fn clasificacion_reparte_todo(ts: Seq<Transaccion>)
    ensures
        de_tipo(ts, TipoTransaccion::CashIn).len() + de_tipo(ts, TipoTransaccion::CashOut).len()
            == ts.len(),
        de_tipo(ts, TipoTransaccion::CashIn).to_multiset().add(
            de_tipo(ts, TipoTransaccion::CashOut).to_multiset(),
        ) == ts.to_multiset(),
        forall|i: int|
            0 <= i < de_tipo(ts, TipoTransaccion::CashIn).len() ==> (#[trigger] de_tipo(
                ts,
                TipoTransaccion::CashIn,
            )[i]).tipo == TipoTransaccion::CashIn,
        forall|i: int|
            0 <= i < de_tipo(ts, TipoTransaccion::CashOut).len() ==> (#[trigger] de_tipo(
                ts,
                TipoTransaccion::CashOut,
            )[i]).tipo == TipoTransaccion::CashOut,
    decreases ts.len(),
{
    broadcast use vstd::multiset::group_multiset_axioms;

    let entran = de_tipo(ts, TipoTransaccion::CashIn);
    let salen = de_tipo(ts, TipoTransaccion::CashOut);
    if ts.len() == 0 {
        lema_vacia_sin_elementos(ts);
        lema_vacia_sin_elementos(entran);
        lema_vacia_sin_elementos(salen);
        assert(entran.to_multiset().add(salen.to_multiset()) =~= ts.to_multiset());
    } else {
        let resto = ts.drop_last();
        let ultima = ts.last();
        clasificacion_reparte_todo(resto);
        assert(ts == resto.push(ultima));
        lema_agregar_ultima(resto, ultima);
        lema_agregar_ultima(de_tipo(resto, TipoTransaccion::CashIn), ultima);
        lema_agregar_ultima(de_tipo(resto, TipoTransaccion::CashOut), ultima);
        assert(entran.to_multiset().add(salen.to_multiset()) =~= ts.to_multiset());
    }
}

/// A log in which every record is readable is classified whole: its readable
/// part is the log itself, record by record.
pub proof fn log_legible_se_clasifica_entero(registros: Seq<Result<Transaccion, ErrorLectura>>)
    requires
        forall|i: int| 0 <= i < registros.len() ==> (#[trigger] registros[i]) is Ok,
    ensures
        primer_malformado(registros, 0) == registros.len(),
        legibles(registros).len() == registros.len(),
        forall|i: int|
            0 <= i < registros.len() ==> registros[i] == Ok::<Transaccion, ErrorLectura>(
                #[trigger] legibles(registros)[i],
            ),
        de_tipo(legibles(registros), TipoTransaccion::CashIn).len() + de_tipo(
            legibles(registros),
            TipoTransaccion::CashOut,
        ).len() == registros.len(),
{
    lema_primer_malformado_salta(registros, 0, registros.len() as int);
    clasificacion_reparte_todo(legibles(registros));
}

/// If the first `vistas.len()` records are readable and are `vistas`, then
/// `vistas` is a prefix of the readable part of the log, and it is all of it
/// when the log ends there or its next record is unreadable.
proof fn lema_legibles_prefijo(
    registros: Seq<Result<Transaccion, ErrorLectura>>,
    vistas: Seq<Transaccion>,
)
    requires
        vistas.len() <= registros.len(),
        forall|i: int| 0 <= i < vistas.len() ==> registros[i] == Ok::<Transaccion, ErrorLectura>(#[trigger] vistas[i]),
    ensures
        primer_malformado(registros, 0) == primer_malformado(registros, vistas.len() as int),
        vistas.len() <= legibles(registros).len(),
        legibles(registros).subrange(0, vistas.len() as int) == vistas,
        (vistas.len() == registros.len() || registros[vistas.len() as int] is Err) ==> legibles(registros) == vistas,
{
    assert forall|i: int| 0 <= i < vistas.len() implies registros[i] is Ok by {
        assert(registros[i] == Ok::<Transaccion, ErrorLectura>(vistas[i]));
    }
    lema_primer_malformado_salta(registros, 0, vistas.len() as int);
    lema_primer_malformado_cota(registros, vistas.len() as int);
    assert(legibles(registros).subrange(0, vistas.len() as int) =~= vistas);
    if vistas.len() == registros.len() || registros[vistas.len() as int] is Err {
        assert(legibles(registros) =~= vistas);
    }
}

/// Readable records are skipped by the search for the first unreadable one.
proof fn lema_primer_malformado_salta(
    registros: Seq<Result<Transaccion, ErrorLectura>>,
    desde: int,
    hasta: int,
)
    requires
        0 <= desde <= hasta <= registros.len(),
        forall|i: int| desde <= i < hasta ==> registros[i] is Ok,
    ensures
        primer_malformado(registros, desde) == primer_malformado(registros, hasta),
    decreases hasta - desde,
{
    if desde < hasta {
        lema_primer_malformado_salta(registros, desde + 1, hasta);
    }
}

/// The first unreadable record at or after `desde` stands between `desde`
/// and the end of the log.
proof fn lema_primer_malformado_cota(registros: Seq<Result<Transaccion, ErrorLectura>>, desde: int)
    requires
        0 <= desde <= registros.len(),
    ensures
        desde <= primer_malformado(registros, desde) <= registros.len(),
    decreases registros.len() - desde,
{
    if desde < registros.len() && registros[desde] is Ok {
        lema_primer_malformado_cota(registros, desde + 1);
    }
}

/// What a prefix of a log sends to a queue is no more than what the whole
/// log sends to it.
proof fn lema_de_tipo_prefijo(prefijo: Seq<Transaccion>, ts: Seq<Transaccion>, tipo: TipoTransaccion)
    requires
        prefijo.len() <= ts.len(),
        ts.subrange(0, prefijo.len() as int) == prefijo,
    ensures
        de_tipo(prefijo, tipo).len() <= de_tipo(ts, tipo).len(),
    decreases ts.len(),
{
    if prefijo.len() < ts.len() {
        assert(ts.drop_last().subrange(0, prefijo.len() as int) =~= prefijo);
        lema_de_tipo_prefijo(prefijo, ts.drop_last(), tipo);
    } else {
        assert(ts =~= prefijo);
    }
}

} // verus!
