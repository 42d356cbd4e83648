//! Settlement: the last stage of the pipeline.
//!
//! One worker alone drains the queue of valid transactions. For each it finds
//! the account of the client, adds the amount of a cash-in to the balance or
//! takes the amount of a cash-out from it, and writes down a settlement
//! record with the balance that the update left. A transaction that names no
//! known client stops the worker for good.

use vstd::prelude::*;
use crate::cliente::{ids_de, vistas_de, Cliente, ClienteView};
use crate::cola::{Cola, ColaView, Recepcion};
use crate::transaccion::{TipoTransaccion, Transaccion, TransaccionAutorizada, TransaccionExitosa};

verus! {

/// Why a transaction could not be settled.
#[derive(Debug, Clone, Copy, PartialEq, Eq)]
pub enum ErrorLiquidacion {
    /// No account has the client of the transaction.
    ClienteDesconocido { id_cliente: u128 },
    /// The balance after the update does not fit the balance's type.
    SaldoFueraDeRango { id_cliente: u128 },
}

/// How a step of the settlement worker ended.
#[derive(Debug, Clone, Copy, PartialEq, Eq, Structural)]
pub enum PasoFinal {
    /// The worker settled a transaction.
    Liquido,
    /// The queue is empty and still open.
    Bloqueado,
    /// The worker has finished: the queue was closed and drained.
    Termino,
}

/// Where the settlement worker stands.
#[derive(Debug, Clone, Copy)]
pub enum EstadoFinal {
    /// Settling.
    Activo,
    /// Finished: the queue was closed and drained.
    Terminado,
    /// Stopped by a transaction that could not be settled.
    Fallido(ErrorLiquidacion),
}

/// Position of the first account at or after `desde` that belongs to the
/// client `id`; the number of accounts if there is none.
pub open spec fn posicion_de(ids: Seq<u128>, id: u128, desde: int) -> int
    decreases ids.len() - desde,
{
    if desde < 0 || desde >= ids.len() {
        ids.len() as int
    } else if ids[desde] == id {
        desde
    } else {
        posicion_de(ids, id, desde + 1)
    }
}

/// What a transaction does to the balance of its client: a cash-in adds its
/// amount, a cash-out takes it away.
pub open spec fn efecto(transaccion: Transaccion) -> int {
    match transaccion.tipo {
        TipoTransaccion::CashIn => transaccion.monto as int,
        TipoTransaccion::CashOut => -(transaccion.monto as int),
    }
}

/// Why `transaccion` cannot be settled on `clientes`, if it cannot.
pub open spec fn error_de(clientes: Seq<ClienteView>, transaccion: Transaccion) -> Option<
    ErrorLiquidacion,
> {
    let p = posicion_de(ids_de(clientes), transaccion.id_cliente, 0);
    if p >= clientes.len() {
        Some(ErrorLiquidacion::ClienteDesconocido { id_cliente: transaccion.id_cliente })
    } else if clientes[p].saldo + efecto(transaccion) > i128::MAX || clientes[p].saldo + efecto(
        transaccion,
    ) < i128::MIN {
        Some(ErrorLiquidacion::SaldoFueraDeRango { id_cliente: transaccion.id_cliente })
    } else {
        None
    }
}

/// The accounts after `transaccion` was settled on them: the first account of
/// its client has the new balance, and nothing else has changed. Accounts on
/// which it cannot be settled stay as they are.
pub open spec fn clientes_tras(clientes: Seq<ClienteView>, transaccion: Transaccion) -> Seq<
    ClienteView,
> {
    let p = posicion_de(ids_de(clientes), transaccion.id_cliente, 0);
    if error_de(clientes, transaccion) is None {
        clientes.update(
            p,
            ClienteView { saldo: (clientes[p].saldo + efecto(transaccion)) as i128, ..clientes[p] },
        )
    } else {
        clientes
    }
}

/// The record of settling `transaccion` on `clientes` at the time
/// `timestamp`: it carries the transaction as it came and the balance of the
/// client's account right after the update.
pub open spec fn registro_de(
    clientes: Seq<ClienteView>,
    transaccion: TransaccionAutorizada,
    timestamp: u128,
) -> TransaccionExitosa {
    let p = posicion_de(ids_de(clientes), transaccion.transaccion.id_cliente, 0);
    TransaccionExitosa {
        transaccion,
        saldo_final: clientes_tras(clientes, transaccion.transaccion)[p].saldo,
        timestamp,
    }
}

/// What the settlement worker is, to the contracts: the accounts, the
/// settlement records that it wrote and that nobody took yet, and where it
/// stands.
pub struct WorkerFinalView {
    pub clientes: Seq<ClienteView>,
    pub registros: Seq<TransaccionExitosa>,
    pub estado: EstadoFinal,
}

/// The settlement stage: the worker and its queue.
pub struct Asentamiento {
    pub worker: WorkerFinalView,
    pub validadas: ColaView<TransaccionAutorizada>,
}

impl Asentamiento {
    /// How the next step of the worker ends, at the time `timestamp`.
    pub open spec fn resultado_paso(self) -> Result<PasoFinal, ErrorLiquidacion> {
        match self.worker.estado {
            EstadoFinal::Fallido(error) => Err(error),
            EstadoFinal::Terminado => Ok(PasoFinal::Termino),
            EstadoFinal::Activo => match self.validadas.frente() {
                Recepcion::Elemento(transaccion) => match error_de(
                    self.worker.clientes,
                    transaccion.transaccion,
                ) {
                    Some(error) => Err(error),
                    None => Ok(PasoFinal::Liquido),
                },
                Recepcion::Vacia => Ok(PasoFinal::Bloqueado),
                Recepcion::Cerrada => Ok(PasoFinal::Termino),
            },
        }
    }

    /// The stage after the next step of the worker, taken at the time
    /// `timestamp`.
    pub open spec fn tras_paso(self, timestamp: u128) -> Asentamiento {
        match self.worker.estado {
            EstadoFinal::Activo => match self.validadas.frente() {
                Recepcion::Elemento(transaccion) => match error_de(
                    self.worker.clientes,
                    transaccion.transaccion,
                ) {
                    Some(error) => Asentamiento {
                        worker: WorkerFinalView {
                            estado: EstadoFinal::Fallido(error),
                            ..self.worker
                        },
                        validadas: self.validadas.tras_recibir(),
                    },
                    None => Asentamiento {
                        worker: WorkerFinalView {
                            clientes: clientes_tras(self.worker.clientes, transaccion.transaccion),
                            registros: self.worker.registros.push(
                                registro_de(self.worker.clientes, transaccion, timestamp),
                            ),
                            estado: EstadoFinal::Activo,
                        },
                        validadas: self.validadas.tras_recibir(),
                    },
                },
                Recepcion::Vacia => self,
                Recepcion::Cerrada => Asentamiento {
                    worker: WorkerFinalView { estado: EstadoFinal::Terminado, ..self.worker },
                    ..self
                },
            },
            _ => self,
        }
    }

    /// The stage after the worker has taken steps, all at the time
    /// `timestamp`, until one of them did not settle a transaction.
    pub open spec fn tras_procesar(self, timestamp: u128) -> Asentamiento
        decreases self.validadas.elementos.len(),
    {
        if self.resultado_paso() == Ok::<PasoFinal, ErrorLiquidacion>(PasoFinal::Liquido) {
            self.tras_paso(timestamp).tras_procesar(timestamp)
        } else {
            self.tras_paso(timestamp)
        }
    }

    /// How the run of steps ends.
    pub open spec fn resultado_procesar(self, timestamp: u128) -> Result<PasoFinal, ErrorLiquidacion>
        decreases self.validadas.elementos.len(),
    {
        if self.resultado_paso() == Ok::<PasoFinal, ErrorLiquidacion>(PasoFinal::Liquido) {
            self.tras_paso(timestamp).resultado_procesar(timestamp)
        } else {
            self.resultado_paso()
        }
    }
}

/// The settlement worker.
#[derive(Debug)]
pub struct WorkerFinal {
    clientes: Vec<Cliente>,
    registros: Vec<TransaccionExitosa>,
    estado: EstadoFinal,
}

impl View for WorkerFinal {
    type V = WorkerFinalView;

    closed spec fn view(&self) -> WorkerFinalView {
        WorkerFinalView {
            clientes: vistas_de(self.clientes@),
            registros: self.registros@,
            estado: self.estado,
        }
    }
}

impl WorkerFinal {
    /// A settlement worker over the accounts `clientes`, with no record
    /// written yet.
    pub fn iniciar(clientes: Vec<Cliente>) -> (worker: Self)
        ensures
            worker@ == (WorkerFinalView {
                clientes: vistas_de(clientes@),
                registros: Seq::empty(),
                estado: EstadoFinal::Activo,
            }),
    {
        WorkerFinal { clientes, registros: Vec::new(), estado: EstadoFinal::Activo }
    }

    /// Where the worker stands.
    pub fn estado(&self) -> (estado: EstadoFinal)
        ensures
            estado == self@.estado,
    {
        self.estado
    }

    /// The balance of the first account of the client `id`, if there is one.
    pub fn saldo_de(&self, id: u128) -> (saldo: Option<i128>)
        ensures
            posicion_de(ids_de(self@.clientes), id, 0) >= self@.clientes.len() ==> saldo is None,
            posicion_de(ids_de(self@.clientes), id, 0) < self@.clientes.len() ==> saldo == Some(
                self@.clientes[posicion_de(ids_de(self@.clientes), id, 0)].saldo,
            ),
    {
        let p = Self::buscar(&self.clientes, id);
        if p < self.clientes.len() {
            Some(self.clientes[p].get_saldo())
        } else {
            None
        }
    }

    /// Hands over the settlement records written since the last call, oldest
    /// first, and keeps none.
    pub fn tomar_registros(&mut self) -> (registros: Vec<TransaccionExitosa>)
        ensures
            registros@ == old(self)@.registros,
            final(self)@ == (WorkerFinalView { registros: Seq::empty(), ..old(self)@ }),
    {
        let mut registros: Vec<TransaccionExitosa> = Vec::new();
        std::mem::swap(&mut self.registros, &mut registros);
        registros
    }

    /// Position of the first account of the client `id`, or the number of
    /// accounts if there is none.
    fn buscar(clientes: &Vec<Cliente>, id: u128) -> (p: usize)
        ensures
            p == posicion_de(ids_de(vistas_de(clientes@)), id, 0),
            p <= clientes.len(),
    {
        let ghost ids = ids_de(vistas_de(clientes@));
        let mut p: usize = 0;
        while p < clientes.len()
            invariant
                p <= clientes.len(),
                ids == ids_de(vistas_de(clientes@)),
                posicion_de(ids, id, 0) == posicion_de(ids, id, p as int),
            decreases clientes.len() - p,
        {
            if clientes[p].id() == id {
                return p;
            }
            p = p + 1;
        }
        p
    }

    /// Settles one transaction on the accounts at the time `timestamp`: the
    /// balance of the client's account goes up by the amount of a cash-in and
    /// down by the amount of a cash-out, and the record returned carries the
    /// balance that the update left. A transaction whose client has no
    /// account, or whose new balance would not fit, changes nothing and is
    /// returned as the error says.
    pub fn liquidar(
        clientes: &mut Vec<Cliente>,
        transaccion: TransaccionAutorizada,
        timestamp: u128,
    ) -> (r: Result<TransaccionExitosa, ErrorLiquidacion>)
        ensures
            final(clientes)@.len() == old(clientes)@.len(),
            vistas_de(final(clientes)@) == clientes_tras(
                vistas_de(old(clientes)@),
                transaccion.transaccion,
            ),
            match error_de(vistas_de(old(clientes)@), transaccion.transaccion) {
                Some(error) => r == Err::<TransaccionExitosa, ErrorLiquidacion>(error),
                None => r == Ok::<TransaccionExitosa, ErrorLiquidacion>(
                    registro_de(vistas_de(old(clientes)@), transaccion, timestamp),
                ),
            },
    {
        let id_cliente = transaccion.transaccion.id_cliente;
        let monto = transaccion.transaccion.monto;
        let p = Self::buscar(clientes, id_cliente);
        if p >= clientes.len() {
            return Err(ErrorLiquidacion::ClienteDesconocido { id_cliente });
        }
        let saldo = clientes[p].get_saldo();
        let ghost antes = vistas_de(clientes@);
        match transaccion.transaccion.tipo {
            TipoTransaccion::CashIn => {
                if saldo > i128::MAX - (monto as i128) {
                    return Err(ErrorLiquidacion::SaldoFueraDeRango { id_cliente });
                }
                clientes[p].cash_in(monto);
            },
            TipoTransaccion::CashOut => {
                if saldo < i128::MIN + (monto as i128) {
                    return Err(ErrorLiquidacion::SaldoFueraDeRango { id_cliente });
                }
                clientes[p].cash_out(monto);
            },
        }
        let saldo_final = clientes[p].get_saldo();
        assert(vistas_de(clientes@) == clientes_tras(antes, transaccion.transaccion));
        Ok(TransaccionExitosa { transaccion, saldo_final, timestamp })
    }

    /// Takes one step at the time `timestamp`: takes a transaction from the
    /// queue, settles it and writes down its record. A transaction that
    /// cannot be settled stops the worker: this step and every later one
    /// return its error, and nothing changes any more.
    pub fn paso(&mut self, validadas: &mut Cola<TransaccionAutorizada>, timestamp: u128) -> (r:
        Result<PasoFinal, ErrorLiquidacion>)
        ensures
            (Asentamiento { worker: final(self)@, validadas: final(validadas)@ }) == (Asentamiento {
                worker: old(self)@,
                validadas: old(validadas)@,
            }).tras_paso(timestamp),
            r == (Asentamiento { worker: old(self)@, validadas: old(validadas)@ }).resultado_paso(),
    {
        match self.estado {
            EstadoFinal::Fallido(error) => Err(error),
            EstadoFinal::Terminado => Ok(PasoFinal::Termino),
            EstadoFinal::Activo => match validadas.recibir() {
                Recepcion::Elemento(transaccion) => {
                    match Self::liquidar(&mut self.clientes, transaccion, timestamp) {
                        Ok(registro) => {
                            self.registros.push(registro);
                            Ok(PasoFinal::Liquido)
                        },
                        Err(error) => {
                            self.estado = EstadoFinal::Fallido(error);
                            Err(error)
                        },
                    }
                },
                Recepcion::Vacia => Ok(PasoFinal::Bloqueado),
                Recepcion::Cerrada => {
                    self.estado = EstadoFinal::Terminado;
                    Ok(PasoFinal::Termino)
                },
            },
        }
    }

    /// Takes steps, all at the time `timestamp`, until one of them does not
    /// settle a transaction: until the queue is empty, or closed and drained,
    /// or a transaction cannot be settled.
    pub fn procesar_transacciones(
        &mut self,
        validadas: &mut Cola<TransaccionAutorizada>,
        timestamp: u128,
    ) -> (r: Result<PasoFinal, ErrorLiquidacion>)
        ensures
            (Asentamiento { worker: final(self)@, validadas: final(validadas)@ }) == (Asentamiento {
                worker: old(self)@,
                validadas: old(validadas)@,
            }).tras_procesar(timestamp),
            r == (Asentamiento {
                worker: old(self)@,
                validadas: old(validadas)@,
            }).resultado_procesar(timestamp),
            r != Ok::<PasoFinal, ErrorLiquidacion>(PasoFinal::Liquido),
    {
        let ghost inicial = Asentamiento { worker: self@, validadas: validadas@ };
        let ghost mut previa = inicial;
        let mut r = self.paso(validadas, timestamp);
        while Self::liquido(&r)
            invariant
                r == previa.resultado_paso(),
                (Asentamiento { worker: self@, validadas: validadas@ }) == previa.tras_paso(
                    timestamp,
                ),
                previa.tras_procesar(timestamp) == inicial.tras_procesar(timestamp),
                previa.resultado_procesar(timestamp) == inicial.resultado_procesar(timestamp),
            decreases previa.validadas.elementos.len(),
        {
            proof {
                previa = previa.tras_paso(timestamp);
            }
            r = self.paso(validadas, timestamp);
        }
        r
    }

    /// Whether a step settled a transaction.
    fn liquido(r: &Result<PasoFinal, ErrorLiquidacion>) -> (liquido: bool)
        ensures
            liquido == (*r == Ok::<PasoFinal, ErrorLiquidacion>(PasoFinal::Liquido)),
    {
        match r {
            Ok(PasoFinal::Liquido) => true,
            _ => false,
        }
    }
}

/// What the records `registros` did, taken together, to the balance of the
/// account at the position `p`: the sum of the effects of those whose client
/// is the client of that account.
pub open spec fn efecto_acumulado(ids: Seq<u128>, registros: Seq<TransaccionExitosa>, p: int) -> int
    decreases registros.len(),
{
    if registros.len() == 0 {
        0
    } else {
        let primero = registros[0].transaccion.transaccion;
        (if posicion_de(ids, primero.id_cliente, 0) == p {
            efecto(primero)
        } else {
            0
        }) + efecto_acumulado(ids, registros.drop_first(), p)
    }
}

/// Settling one transaction moves one balance by the amount and leaves every
/// other account alone: a cash-in of `a` on a balance `b` leaves `b + a`, a
/// cash-out leaves `b - a`, and the record carries the balance of the account
/// right after the update. No account changes hands.
pub proof fn liquidar_mueve_un_saldo(
    clientes: Seq<ClienteView>,
    transaccion: TransaccionAutorizada,
    timestamp: u128,
)
    requires
        error_de(clientes, transaccion.transaccion) is None,
    ensures
        ({
            let p = posicion_de(ids_de(clientes), transaccion.transaccion.id_cliente, 0);
            let despues = clientes_tras(clientes, transaccion.transaccion);
            let registro = registro_de(clientes, transaccion, timestamp);
            &&& 0 <= p < clientes.len()
            &&& clientes[p].id == transaccion.transaccion.id_cliente
            &&& despues.len() == clientes.len()
            &&& ids_de(despues) == ids_de(clientes)
            &&& transaccion.transaccion.tipo == TipoTransaccion::CashIn ==> despues[p].saldo
                == clientes[p].saldo + transaccion.transaccion.monto
            &&& transaccion.transaccion.tipo == TipoTransaccion::CashOut ==> despues[p].saldo
                == clientes[p].saldo - transaccion.transaccion.monto
            &&& forall|q: int| 0 <= q < clientes.len() && q != p ==> despues[q] == clientes[q]
            &&& registro.saldo_final == despues[p].saldo
            &&& registro.transaccion == transaccion
            &&& registro.timestamp == timestamp
        }),
{
    lema_posicion(ids_de(clientes), transaccion.transaccion.id_cliente, 0);
    assert(ids_de(clientes_tras(clientes, transaccion.transaccion)) =~= ids_de(clientes));
}

/// After a run of the settlement worker every balance reflects exactly the
/// transactions settled in the run: the balance of each account is what it
/// was before, moved by the effects of the new records of its client. The
/// records written before the run are still there, in their places, and no
/// account has changed hands.
pub proof fn saldos_reflejan_lo_liquidado(antes: Asentamiento, timestamp: u128)
    ensures
        ({
            let despues = antes.tras_procesar(timestamp);
            let nuevos = despues.worker.registros.subrange(
                antes.worker.registros.len() as int,
                despues.worker.registros.len() as int,
            );
            &&& despues.worker.clientes.len() == antes.worker.clientes.len()
            &&& ids_de(despues.worker.clientes) == ids_de(antes.worker.clientes)
            &&& despues.worker.registros.len() >= antes.worker.registros.len()
            &&& despues.worker.registros.subrange(0, antes.worker.registros.len() as int)
                == antes.worker.registros
            &&& forall|p: int|
                0 <= p < antes.worker.clientes.len() ==> (#[trigger] despues.worker.clientes[p]).saldo
                    == antes.worker.clientes[p].saldo + efecto_acumulado(
                    ids_de(antes.worker.clientes),
                    nuevos,
                    p,
                )
        }),
    decreases antes.validadas.elementos.len(),
{
    let despues = antes.tras_procesar(timestamp);
    let nuevos = despues.worker.registros.subrange(
        antes.worker.registros.len() as int,
        despues.worker.registros.len() as int,
    );
    if antes.resultado_paso() == Ok::<PasoFinal, ErrorLiquidacion>(PasoFinal::Liquido) {
        let transaccion = antes.validadas.elementos[0];
        let medio = antes.tras_paso(timestamp);
        let registro = registro_de(antes.worker.clientes, transaccion, timestamp);
        liquidar_mueve_un_saldo(antes.worker.clientes, transaccion, timestamp);
        saldos_reflejan_lo_liquidado(medio, timestamp);
        let resto = despues.worker.registros.subrange(
            medio.worker.registros.len() as int,
            despues.worker.registros.len() as int,
        );
        assert(despues.worker.registros.subrange(0, antes.worker.registros.len() as int)
            == antes.worker.registros) by {
            assert(despues.worker.registros.subrange(0, medio.worker.registros.len() as int).subrange(
                0,
                antes.worker.registros.len() as int,
            ) == antes.worker.registros);
        }
        assert(despues.worker.registros[antes.worker.registros.len() as int] == registro) by {
            assert(despues.worker.registros.subrange(0, medio.worker.registros.len() as int)[antes.worker.registros.len() as int]
                == registro);
        }
        assert(nuevos[0] == registro);
        assert(nuevos.drop_first() == resto);
        let suya = posicion_de(ids_de(antes.worker.clientes), transaccion.transaccion.id_cliente, 0);
        assert forall|p: int| 0 <= p < antes.worker.clientes.len() implies (
        #[trigger] despues.worker.clientes[p]).saldo == antes.worker.clientes[p].saldo
            + efecto_acumulado(ids_de(antes.worker.clientes), nuevos, p) by {
            assert(despues.worker.clientes[p].saldo == medio.worker.clientes[p].saldo
                + efecto_acumulado(ids_de(medio.worker.clientes), resto, p));
            if p != suya {
                assert(medio.worker.clientes[p] == antes.worker.clientes[p]);
            }
        }
    } else {
        assert(despues.worker.registros.subrange(0, antes.worker.registros.len() as int)
            == antes.worker.registros);
        assert(nuevos.len() == 0);
    }
}

/// The first account of a client, where there is one, is an account of that
/// client.
proof fn lema_posicion(ids: Seq<u128>, id: u128, desde: int)
    requires
        0 <= desde <= ids.len(),
    ensures
        desde <= posicion_de(ids, id, desde) <= ids.len(),
        posicion_de(ids, id, desde) < ids.len() ==> ids[posicion_de(ids, id, desde)] == id,
    decreases ids.len() - desde,
{
    if desde < ids.len() && ids[desde] != id {
        lema_posicion(ids, id, desde + 1);
    }
}

} // verus!
