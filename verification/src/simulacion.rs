//! The generator of the transaction log: a day of transfers among clients.
//!
//! Each client in turn makes some transfers to clients drawn at random. A
//! transfer is settled on the spot, from one balance to the other, unless the
//! draw says that it stays pending: then no balance moves, and the transfer
//! is written down as two transactions, a cash-out of the sender and a
//! cash-in of the receiver.

use vstd::prelude::*;
use rand::rngs::StdRng;
use crate::azar::{generador_con_semilla, sortear_bits, sortear_menor_que};
use crate::cliente::{
    ids_de, vistas_de, Cliente, ClienteView, SALDO_INICIAL_MAXIMO, SALDO_INICIAL_MINIMO,
};
use crate::fraccion::{fraccion_de, por_debajo, UN_DECIMO};
use crate::identificador::{es_uuid_v4, nuevo_uuid};
use crate::transaccion::{TipoTransaccion, Transaccion};
use crate::worker_final::efecto;

verus! {

/// The least number of transfers that a client makes in a day.
pub const CANTIDAD_MINIMA_OPERACIONES: u32 = 10;

/// The number of transfers that no client reaches in a day.
pub const CANTIDAD_MAXIMA_OPERACIONES: u32 = 100;

/// The least amount of a transfer, in hundredths.
pub const MONTO_MINIMO_TRANSFERENCIA: u64 = 1_000;

/// The amount that no transfer reaches, in hundredths.
pub const MONTO_MAXIMO_TRANSFERENCIA: u64 = 100_000;

/// The probability that a transfer stays pending.
pub const PROBABILIDAD_TRANSACCION_NO_PROCESADA: u64 = UN_DECIMO;

/// More than the day of one client can move any balance: fewer than a
/// hundred transfers of less than a thousand units each.
pub const HOLGURA_DE_SALDO: i128 = 10_000_000;

/// The sum of the balances.
pub open spec fn saldo_total(clientes: Seq<ClienteView>) -> int
    decreases clientes.len(),
{
    if clientes.len() == 0 {
        0
    } else {
        saldo_total(clientes.drop_last()) + clientes.last().saldo
    }
}

/// Whether every balance is at least `holgura` away from the ends of the
/// balance's type.
pub open spec fn con_holgura(clientes: Seq<ClienteView>, holgura: int) -> bool {
    forall|i: int|
        0 <= i < clientes.len() ==> i128::MIN + holgura <= (#[trigger] clientes[i]).saldo
            <= i128::MAX - holgura
}

/// The number that follows `n` in the numbering of the transactions, which
/// starts over after the greatest.
pub open spec fn siguiente(n: u32) -> u32 {
    if n == u32::MAX {
        0
    } else {
        (n + 1) as u32
    }
}

/// The number that stands `k` places after `n` in the numbering.
pub open spec fn avanzar(n: u32, k: nat) -> u32 {
    ((n + k) % 0x1_0000_0000) as u32
}

/// The pending transaction of a client.
pub open spec fn pendiente_de(
    cliente: ClienteView,
    tipo: TipoTransaccion,
    monto: u64,
    id: u32,
    timestamp: u128,
) -> Transaccion {
    Transaccion { id, id_cliente: cliente.id, timestamp, tipo, monto }
}

/// The accounts after `monto` went from the account at `origen` to the one
/// at `destino`.
pub open spec fn clientes_tras_transferir(
    clientes: Seq<ClienteView>,
    origen: int,
    destino: int,
    monto: u64,
) -> Seq<ClienteView> {
    let acreditados = clientes.update(
        destino,
        ClienteView { saldo: (clientes[destino].saldo + monto) as i128, ..clientes[destino] },
    );
    acreditados.update(
        origen,
        ClienteView { saldo: (acreditados[origen].saldo - monto) as i128, ..acreditados[origen] },
    )
}

/// Whether two transactions are the two halves of one pending transfer
/// among the clients `ids` at the time `timestamp`: a cash-out of one client
/// and a cash-in of a client that is not the last, of one amount, an amount
/// that a transfer can have, numbered one after the other.
pub open spec fn es_par_pendiente(
    salida: Transaccion,
    entrada: Transaccion,
    ids: Seq<u128>,
    timestamp: u128,
) -> bool {
    &&& salida.tipo == TipoTransaccion::CashOut
    &&& entrada.tipo == TipoTransaccion::CashIn
    &&& salida.monto == entrada.monto
    &&& MONTO_MINIMO_TRANSFERENCIA <= salida.monto < MONTO_MAXIMO_TRANSFERENCIA
    &&& salida.timestamp == timestamp
    &&& entrada.timestamp == timestamp
    &&& ids.contains(salida.id_cliente)
    &&& ids.drop_last().contains(entrada.id_cliente)
    &&& entrada.id == siguiente(salida.id)
}

/// Whether `pendientes` is made of pending transfers, two transactions for
/// each.
pub open spec fn es_lote(pendientes: Seq<Transaccion>, ids: Seq<u128>, timestamp: u128) -> bool
    decreases pendientes.len(),
{
    pendientes.len() == 0 || {
        &&& pendientes.len() >= 2
        &&& es_par_pendiente(
            pendientes[pendientes.len() - 2],
            pendientes[pendientes.len() - 1],
            ids,
            timestamp,
        )
        &&& es_lote(pendientes.subrange(0, pendientes.len() - 2), ids, timestamp)
    }
}

/// Whether the transactions are numbered in their order, from `primero` on.
pub open spec fn numeradas(pendientes: Seq<Transaccion>, primero: u32) -> bool {
    forall|i: int|
        0 <= i < pendientes.len() ==> (#[trigger] pendientes[i]).id == avanzar(primero, i as nat)
}

/// What the transactions do, taken together, to the sum of the balances.
pub open spec fn efecto_total(transacciones: Seq<Transaccion>) -> int
    decreases transacciones.len(),
{
    if transacciones.len() == 0 {
        0
    } else {
        efecto_total(transacciones.drop_last()) + efecto(transacciones.last())
    }
}

impl Cliente {
    /// The pending transaction of this client: `monto` in or out, numbered
    /// `id`, at the time `timestamp`.
    pub fn escribir_transaccion_pendiente(
        &self,
        tipo: TipoTransaccion,
        monto: u64,
        id: u32,
        timestamp: u128,
    ) -> (transaccion: Transaccion)
        ensures
            transaccion == pendiente_de(self@, tipo, monto, id, timestamp),
    {
        Transaccion { id, id_cliente: self.id(), timestamp, tipo, monto }
    }

    /// A transfer of `monto` from the account at `origen` to the one at
    /// `destino`, decided by the 64 bits drawn for it. If their fraction is
    /// below the probability of staying pending, no balance moves, and the
    /// cash-out of the sender, numbered `n_origen`, and the cash-in of the
    /// receiver, numbered `n_destino`, are returned. Otherwise the amount
    /// goes from one balance to the other and nothing is returned.
    ///
    /// Both balances must have room for the amount.
    pub fn resolver_transferencia(
        clientes: &mut Vec<Cliente>,
        origen: usize,
        destino: usize,
        monto: u64,
        bits: u64,
        n_origen: u32,
        n_destino: u32,
        timestamp: u128,
    ) -> (r: Option<(Transaccion, Transaccion)>)
        requires
            origen < old(clientes)@.len(),
            destino < old(clientes)@.len(),
            old(clientes)@[destino as int]@.saldo + monto <= i128::MAX,
            old(clientes)@[origen as int]@.saldo - monto >= i128::MIN,
        ensures
            final(clientes)@.len() == old(clientes)@.len(),
            fraccion_de(bits) < PROBABILIDAD_TRANSACCION_NO_PROCESADA ==> {
                &&& vistas_de(final(clientes)@) == vistas_de(old(clientes)@)
                &&& r == Some(
                    (
                        pendiente_de(
                            old(clientes)@[origen as int]@,
                            TipoTransaccion::CashOut,
                            monto,
                            n_origen,
                            timestamp,
                        ),
                        pendiente_de(
                            old(clientes)@[destino as int]@,
                            TipoTransaccion::CashIn,
                            monto,
                            n_destino,
                            timestamp,
                        ),
                    ),
                )
            },
            fraccion_de(bits) >= PROBABILIDAD_TRANSACCION_NO_PROCESADA ==> {
                &&& vistas_de(final(clientes)@) == clientes_tras_transferir(
                    vistas_de(old(clientes)@),
                    origen as int,
                    destino as int,
                    monto,
                )
                &&& r is None
            },
    {
        if por_debajo(bits, PROBABILIDAD_TRANSACCION_NO_PROCESADA) {
            let salida = clientes[origen].escribir_transaccion_pendiente(
                TipoTransaccion::CashOut,
                monto,
                n_origen,
                timestamp,
            );
            let entrada = clientes[destino].escribir_transaccion_pendiente(
                TipoTransaccion::CashIn,
                monto,
                n_destino,
                timestamp,
            );
            Some((salida, entrada))
        } else {
            let ghost antes = vistas_de(clientes@);
            clientes[destino].cash_in(monto);
            clientes[origen].cash_out(monto);
            assert(vistas_de(clientes@) == clientes_tras_transferir(
                antes,
                origen as int,
                destino as int,
                monto,
            ));
            None
        }
    }

    /// A transfer of `monto` from the account at `origen` to the one at
    /// `destino`, decided by a draw from `rng`: what `resolver_transferencia`
    /// does with the bits drawn.
    ///
    /// Both balances must have room for the amount.
    pub fn realizar_transferencia(
        clientes: &mut Vec<Cliente>,
        origen: usize,
        destino: usize,
        monto: u64,
        rng: &mut StdRng,
        n_origen: u32,
        n_destino: u32,
        timestamp: u128,
    ) -> (r: Option<(Transaccion, Transaccion)>)
        requires
            origen < old(clientes)@.len(),
            destino < old(clientes)@.len(),
            old(clientes)@[destino as int]@.saldo + monto <= i128::MAX,
            old(clientes)@[origen as int]@.saldo - monto >= i128::MIN,
        ensures
            final(clientes)@.len() == old(clientes)@.len(),
            r is Some ==> {
                &&& vistas_de(final(clientes)@) == vistas_de(old(clientes)@)
                &&& r == Some(
                    (
                        pendiente_de(
                            old(clientes)@[origen as int]@,
                            TipoTransaccion::CashOut,
                            monto,
                            n_origen,
                            timestamp,
                        ),
                        pendiente_de(
                            old(clientes)@[destino as int]@,
                            TipoTransaccion::CashIn,
                            monto,
                            n_destino,
                            timestamp,
                        ),
                    ),
                )
            },
            r is None ==> vistas_de(final(clientes)@) == clientes_tras_transferir(
                vistas_de(old(clientes)@),
                origen as int,
                destino as int,
                monto,
            ),
    {
        let bits = sortear_bits(rng);
        Self::resolver_transferencia(
            clientes,
            origen,
            destino,
            monto,
            bits,
            n_origen,
            n_destino,
            timestamp,
        )
    }

    /// The day of the client whose account stands at `origen`: at least the
    /// least number of transfers and fewer than the greatest, each of an
    /// amount drawn between the least and the greatest, each to a client
    /// drawn among all but the last. The transfers that stay pending are
    /// added to `pendientes`, numbered from `n_transaccion` on, which moves
    /// on as far.
    ///
    /// There must be two accounts or more, and every balance must be farther
    /// from the ends of the balance's type than a day can move it.
    pub fn operar(
        clientes: &mut Vec<Cliente>,
        origen: usize,
        rng: &mut StdRng,
        n_transaccion: &mut u32,
        timestamp: u128,
        pendientes: &mut Vec<Transaccion>,
    )
        requires
            old(clientes)@.len() >= 2,
            origen < old(clientes)@.len(),
            con_holgura(vistas_de(old(clientes)@), HOLGURA_DE_SALDO as int),
        ensures
            resultado_de_operar(
                vistas_de(old(clientes)@),
                old(pendientes)@,
                *old(n_transaccion),
                timestamp,
                vistas_de(final(clientes)@),
                final(pendientes)@,
                *final(n_transaccion),
            ),
            final(clientes)@.len() == old(clientes)@.len(),
    {
        let ghost antes = vistas_de(clientes@);
        let ghost ids = ids_de(antes);
        let ghost previas = pendientes@;
        let ghost primero = *n_transaccion;
        let ghost mut nuevas: Seq<Transaccion> = Seq::empty();
        let cantidad_operaciones = CANTIDAD_MINIMA_OPERACIONES + sortear_menor_que(
            rng,
            (CANTIDAD_MAXIMA_OPERACIONES - CANTIDAD_MINIMA_OPERACIONES) as u64,
        ) as u32;
        let ultimo = (clientes.len() - 1) as u64;
        let mut hechas: u32 = 0;
        proof {
            assert(previas + nuevas == previas);
            assert(ids_de(vistas_de(clientes@)) == ids);
        }
        while hechas < cantidad_operaciones
            invariant
                hechas <= cantidad_operaciones < CANTIDAD_MAXIMA_OPERACIONES,
                clientes@.len() == antes.len(),
                clientes@.len() >= 2,
                ultimo == clientes@.len() - 1,
                origen < clientes@.len(),
                con_holgura(antes, HOLGURA_DE_SALDO as int),
                ids == ids_de(antes),
                ids_de(vistas_de(clientes@)) == ids,
                saldo_total(vistas_de(clientes@)) == saldo_total(antes),
                forall|i: int|
                    0 <= i < antes.len() ==> -hechas * MONTO_MAXIMO_TRANSFERENCIA <= (
                    #[trigger] clientes@[i])@.saldo - antes[i].saldo <= hechas
                        * MONTO_MAXIMO_TRANSFERENCIA,
                pendientes@ == previas + nuevas,
                nuevas.len() <= 2 * hechas,
                es_lote(nuevas, ids, timestamp),
                numeradas(nuevas, primero),
                *n_transaccion == avanzar(primero, nuevas.len()),
            decreases cantidad_operaciones - hechas,
        {
            let indice_cliente_destino = sortear_menor_que(rng, ultimo) as usize;
            let monto_transferencia = MONTO_MINIMO_TRANSFERENCIA + sortear_menor_que(
                rng,
                MONTO_MAXIMO_TRANSFERENCIA - MONTO_MINIMO_TRANSFERENCIA,
            );
            let n_origen = *n_transaccion;
            let n_destino = if n_origen == u32::MAX {
                0
            } else {
                n_origen + 1
            };
            let ghost previos = vistas_de(clientes@);
            proof {
                assert(clientes@[origen as int]@.saldo - antes[origen as int].saldo >= -hechas
                    * MONTO_MAXIMO_TRANSFERENCIA);
                assert(clientes@[indice_cliente_destino as int]@.saldo
                    - antes[indice_cliente_destino as int].saldo <= hechas
                    * MONTO_MAXIMO_TRANSFERENCIA);
                assert(antes[origen as int].saldo >= i128::MIN + HOLGURA_DE_SALDO);
                assert(antes[indice_cliente_destino as int].saldo <= i128::MAX - HOLGURA_DE_SALDO);
            }
            let pendiente = Self::realizar_transferencia(
                clientes,
                origen,
                indice_cliente_destino,
                monto_transferencia,
                rng,
                n_origen,
                n_destino,
                timestamp,
            );
            match pendiente {
                Some((salida, entrada)) => {
                    proof {
                        assert(ids[origen as int] == salida.id_cliente);
                        assert(ids.drop_last()[indice_cliente_destino as int]
                            == entrada.id_cliente);
                        lema_lote_crece(nuevas, salida, entrada, ids, timestamp);
                        lema_numeracion_crece(nuevas, salida, entrada, primero);
                        assert(previas + nuevas.push(salida).push(entrada) == (previas
                            + nuevas).push(salida).push(entrada));
                        nuevas = nuevas.push(salida).push(entrada);
                        assert forall|i: int| 0 <= i < antes.len() implies -(hechas + 1)
                            * MONTO_MAXIMO_TRANSFERENCIA <= (#[trigger] clientes@[i])@.saldo
                            - antes[i].saldo <= (hechas + 1) * MONTO_MAXIMO_TRANSFERENCIA by {
                            assert(vistas_de(clientes@)[i] == clientes@[i]@);
                            assert(previos[i].saldo - antes[i].saldo <= hechas
                                * MONTO_MAXIMO_TRANSFERENCIA);
                        }
                    }
                    pendientes.push(salida);
                    pendientes.push(entrada);
                    *n_transaccion = if n_destino == u32::MAX {
                        0
                    } else {
                        n_destino + 1
                    };
                },
                None => {
                    proof {
                        transferir_conserva_el_total(
                            previos,
                            origen as int,
                            indice_cliente_destino as int,
                            monto_transferencia,
                        );
                        assert forall|i: int| 0 <= i < antes.len() implies -(hechas + 1)
                            * MONTO_MAXIMO_TRANSFERENCIA <= (#[trigger] clientes@[i])@.saldo
                            - antes[i].saldo <= (hechas + 1) * MONTO_MAXIMO_TRANSFERENCIA by {
                            assert(vistas_de(clientes@)[i] == clientes@[i]@);
                            assert(previos[i].saldo - antes[i].saldo <= hechas
                                * MONTO_MAXIMO_TRANSFERENCIA);
                        }
                    }
                },
            }
            hechas = hechas + 1;
        }
        proof {
            assert((previas + nuevas).subrange(0, previas.len() as int) == previas);
            assert((previas + nuevas).subrange(
                previas.len() as int,
                (previas + nuevas).len() as int,
            ) == nuevas);
        }
    }
}

/// Simulates a day of transfers among `n_clientes` clients. The accounts are
/// opened with random identifiers and balances drawn from a generator seeded
/// with `semilla`; then each client, in the order of the accounts, has its
/// day. Returns the accounts as the day leaves them and the transfers that
/// stay pending, all at the time `timestamp`, numbered from one.
///
/// One client alone has nobody to transfer to.
pub fn simular_transacciones(n_clientes: u32, semilla: u64, timestamp: u128) -> (r: (
    Vec<Cliente>,
    Vec<Transaccion>,
))
    requires
        n_clientes != 1,
    ensures
        r.0@.len() == n_clientes,
        forall|i: int| 0 <= i < n_clientes ==> es_uuid_v4((#[trigger] r.0@[i])@.id),
        n_clientes * SALDO_INICIAL_MINIMO <= saldo_total(vistas_de(r.0@)) <= n_clientes * (
        SALDO_INICIAL_MAXIMO - 1),
        forall|i: int|
            0 <= i < n_clientes ==> SALDO_INICIAL_MINIMO - n_clientes * HOLGURA_DE_SALDO <= (
            #[trigger] r.0@[i])@.saldo <= SALDO_INICIAL_MAXIMO + n_clientes * HOLGURA_DE_SALDO,
        r.1@.len() <= n_clientes * (2 * (CANTIDAD_MAXIMA_OPERACIONES - 1)),
        es_lote(r.1@, ids_de(vistas_de(r.0@)), timestamp),
        numeradas(r.1@, 1),
{
    let mut rng = generador_con_semilla(semilla);
    let mut clientes: Vec<Cliente> = Vec::new();
    let mut creados: u32 = 0;
    while creados < n_clientes
        invariant
            creados <= n_clientes,
            clientes@.len() == creados,
            forall|i: int|
                0 <= i < creados ==> es_uuid_v4((#[trigger] clientes@[i])@.id)
                    && SALDO_INICIAL_MINIMO <= clientes@[i]@.saldo < SALDO_INICIAL_MAXIMO,
            creados * SALDO_INICIAL_MINIMO <= saldo_total(vistas_de(clientes@)) <= creados * (
            SALDO_INICIAL_MAXIMO - 1),
        decreases n_clientes - creados,
    {
        let ghost previos = vistas_de(clientes@);
        let cliente = Cliente::new(nuevo_uuid(), &mut rng);
        let ghost todos = previos.push(cliente@);
        clientes.push(cliente);
        proof {
            assert(vistas_de(clientes@) == todos);
            assert(todos.drop_last() == previos);
            assert(saldo_total(todos) == saldo_total(previos) + todos.last().saldo);
            assert((creados + 1) * SALDO_INICIAL_MINIMO == creados * SALDO_INICIAL_MINIMO
                + SALDO_INICIAL_MINIMO) by (nonlinear_arith);
            assert((creados + 1) * (SALDO_INICIAL_MAXIMO - 1) == creados * (SALDO_INICIAL_MAXIMO
                - 1) + (SALDO_INICIAL_MAXIMO - 1)) by (nonlinear_arith);
        }
        creados = creados + 1;
    }
    let mut pendientes: Vec<Transaccion> = Vec::new();
    let mut n_transaccion: u32 = 1;
    let ghost iniciales = vistas_de(clientes@);
    let ghost ids = ids_de(iniciales);
    if clientes.len() >= 2 {
        let mut turno: usize = 0;
        while turno < clientes.len()
            invariant
                turno <= clientes@.len(),
                clientes@.len() == n_clientes,
                clientes@.len() >= 2,
                iniciales.len() == n_clientes,
                ids == ids_de(iniciales),
                ids_de(vistas_de(clientes@)) == ids,
                saldo_total(vistas_de(clientes@)) == saldo_total(iniciales),
                forall|i: int|
                    0 <= i < n_clientes ==> SALDO_INICIAL_MINIMO - turno * HOLGURA_DE_SALDO <= (
                    #[trigger] clientes@[i])@.saldo <= SALDO_INICIAL_MAXIMO + turno
                        * HOLGURA_DE_SALDO,
                pendientes@.len() <= turno * (2 * (CANTIDAD_MAXIMA_OPERACIONES - 1)),
                es_lote(pendientes@, ids, timestamp),
                numeradas(pendientes@, 1),
                n_transaccion == avanzar(1, pendientes@.len()),
            decreases clientes@.len() - turno,
        {
            let ghost previos = vistas_de(clientes@);
            let ghost previas = pendientes@;
            proof {
                assert forall|i: int| 0 <= i < previos.len() implies i128::MIN + HOLGURA_DE_SALDO
                    <= (#[trigger] previos[i]).saldo <= i128::MAX - HOLGURA_DE_SALDO by {
                    assert(previos[i] == clientes@[i]@);
                }
            }
            Cliente::operar(
                &mut clientes,
                turno,
                &mut rng,
                &mut n_transaccion,
                timestamp,
                &mut pendientes,
            );
            proof {
                let ghost nuevas = pendientes@.subrange(
                    previas.len() as int,
                    pendientes@.len() as int,
                );
                assert(pendientes@ == previas + nuevas);
                lema_lotes_seguidos(previas, nuevas, ids, timestamp);
                lema_numeraciones_seguidas(previas, nuevas, 1);
                assert((turno + 1) * (2 * (CANTIDAD_MAXIMA_OPERACIONES - 1)) == turno * (2 * (
                CANTIDAD_MAXIMA_OPERACIONES - 1)) + 2 * (CANTIDAD_MAXIMA_OPERACIONES - 1))
                    by (nonlinear_arith);
                assert forall|i: int| 0 <= i < n_clientes implies SALDO_INICIAL_MINIMO - (turno
                    + 1) * HOLGURA_DE_SALDO <= (#[trigger] clientes@[i])@.saldo
                    <= SALDO_INICIAL_MAXIMO + (turno + 1) * HOLGURA_DE_SALDO by {
                    assert(vistas_de(clientes@)[i] == clientes@[i]@);
                    assert(-HOLGURA_DE_SALDO <= vistas_de(clientes@)[i].saldo - previos[i].saldo
                        <= HOLGURA_DE_SALDO);
                }
            }
            turno = turno + 1;
        }
    }
    proof {
        assert forall|i: int| 0 <= i < n_clientes implies es_uuid_v4(
            (#[trigger] clientes@[i])@.id,
        ) by {
            assert(ids_de(vistas_de(clientes@))[i] == ids[i]);
        }
    }
    (clientes, pendientes)
}

/// What the day of a client leaves: the accounts are the same and their
/// balances add up to what they added up to, no balance has moved by more
/// than a day can move it, and what was pending is still there, followed by
/// the transfers of the day that stay pending, no more than the day has
/// transfers, two transactions for each, numbered from `n_antes` on, with
/// `n_despues` the number after the last.
pub open spec fn resultado_de_operar(
    clientes_antes: Seq<ClienteView>,
    pendientes_antes: Seq<Transaccion>,
    n_antes: u32,
    timestamp: u128,
    clientes_despues: Seq<ClienteView>,
    pendientes_despues: Seq<Transaccion>,
    n_despues: u32,
) -> bool {
    &&& clientes_despues.len() == clientes_antes.len()
    &&& ids_de(clientes_despues) == ids_de(clientes_antes)
    &&& saldo_total(clientes_despues) == saldo_total(clientes_antes)
    &&& forall|i: int|
        0 <= i < clientes_antes.len() ==> -HOLGURA_DE_SALDO <= (#[trigger] clientes_despues[i]).saldo
            - clientes_antes[i].saldo <= HOLGURA_DE_SALDO
    &&& pendientes_antes.len() <= pendientes_despues.len() <= pendientes_antes.len() + 2 * (
    CANTIDAD_MAXIMA_OPERACIONES - 1)
    &&& pendientes_despues.subrange(0, pendientes_antes.len() as int) == pendientes_antes
    &&& es_lote(
        pendientes_despues.subrange(
            pendientes_antes.len() as int,
            pendientes_despues.len() as int,
        ),
        ids_de(clientes_antes),
        timestamp,
    )
    &&& numeradas(
        pendientes_despues.subrange(
            pendientes_antes.len() as int,
            pendientes_despues.len() as int,
        ),
        n_antes,
    )
    &&& n_despues == avanzar(n_antes, (pendientes_despues.len() - pendientes_antes.len()) as nat)
}

/// A transfer settled on the spot takes from one balance what it gives to
/// another: the accounts are the same, their balances add up to what they
/// added up to, and no balance has moved by more than the amount.
pub proof fn transferir_conserva_el_total(
    clientes: Seq<ClienteView>,
    origen: int,
    destino: int,
    monto: u64,
)
    requires
        0 <= origen < clientes.len(),
        0 <= destino < clientes.len(),
        clientes[destino].saldo + monto <= i128::MAX,
        clientes[origen].saldo - monto >= i128::MIN,
    ensures
        clientes_tras_transferir(clientes, origen, destino, monto).len() == clientes.len(),
        ids_de(clientes_tras_transferir(clientes, origen, destino, monto)) == ids_de(clientes),
        saldo_total(clientes_tras_transferir(clientes, origen, destino, monto)) == saldo_total(
            clientes,
        ),
        forall|i: int|
            0 <= i < clientes.len() ==> -monto <= (#[trigger] clientes_tras_transferir(
                clientes,
                origen,
                destino,
                monto,
            )[i]).saldo - clientes[i].saldo <= monto,
{
    let acreditado = ClienteView {
        saldo: (clientes[destino].saldo + monto) as i128,
        ..clientes[destino]
    };
    let acreditados = clientes.update(destino, acreditado);
    let debitado = ClienteView {
        saldo: (acreditados[origen].saldo - monto) as i128,
        ..acreditados[origen]
    };
    lema_total_tras_cambio(clientes, destino, acreditado);
    lema_total_tras_cambio(acreditados, origen, debitado);
    assert(ids_de(clientes_tras_transferir(clientes, origen, destino, monto)) == ids_de(clientes));
}

/// The two transactions of a pending transfer undo each other: settling all
/// the transactions of a batch of pending transfers leaves the sum of the
/// balances as it was.
pub proof fn los_pendientes_se_compensan(
    pendientes: Seq<Transaccion>,
    ids: Seq<u128>,
    timestamp: u128,
)
    requires
        es_lote(pendientes, ids, timestamp),
    ensures
        efecto_total(pendientes) == 0,
        pendientes.len() % 2 == 0,
    decreases pendientes.len(),
{
    if pendientes.len() > 0 {
        let resto = pendientes.subrange(0, pendientes.len() - 2);
        los_pendientes_se_compensan(resto, ids, timestamp);
        let sin_ultima = pendientes.drop_last();
        assert(sin_ultima.drop_last() == resto);
        assert(sin_ultima.last() == pendientes[pendientes.len() - 2]);
        assert(efecto_total(pendientes) == efecto_total(sin_ultima) + efecto(pendientes.last()));
        assert(efecto_total(sin_ultima) == efecto_total(resto) + efecto(sin_ultima.last()));
    }
}

/// Changing one account changes the sum of the balances by the change of
/// its balance.
proof fn lema_total_tras_cambio(clientes: Seq<ClienteView>, i: int, nuevo: ClienteView)
    requires
        0 <= i < clientes.len(),
    ensures
        saldo_total(clientes.update(i, nuevo)) == saldo_total(clientes) - clientes[i].saldo
            + nuevo.saldo,
    decreases clientes.len(),
{
    if i == clientes.len() - 1 {
        assert(clientes.update(i, nuevo).drop_last() == clientes.drop_last());
    } else {
        assert(clientes.update(i, nuevo).drop_last() == clientes.drop_last().update(i, nuevo));
        lema_total_tras_cambio(clientes.drop_last(), i, nuevo);
    }
}

/// A batch with one more pending transfer at its end is a batch.
proof fn lema_lote_crece(
    pendientes: Seq<Transaccion>,
    salida: Transaccion,
    entrada: Transaccion,
    ids: Seq<u128>,
    timestamp: u128,
)
    requires
        es_lote(pendientes, ids, timestamp),
        es_par_pendiente(salida, entrada, ids, timestamp),
    ensures
        es_lote(pendientes.push(salida).push(entrada), ids, timestamp),
{
    let crecido = pendientes.push(salida).push(entrada);
    assert(crecido.subrange(0, crecido.len() - 2) == pendientes);
}

/// A batch followed by a batch is a batch.
proof fn lema_lotes_seguidos(
    primeras: Seq<Transaccion>,
    segundas: Seq<Transaccion>,
    ids: Seq<u128>,
    timestamp: u128,
)
    requires
        es_lote(primeras, ids, timestamp),
        es_lote(segundas, ids, timestamp),
    ensures
        es_lote(primeras + segundas, ids, timestamp),
    decreases segundas.len(),
{
    if segundas.len() == 0 {
        assert(primeras + segundas == primeras);
    } else {
        let resto = segundas.subrange(0, segundas.len() - 2);
        let todas = primeras + segundas;
        lema_lotes_seguidos(primeras, resto, ids, timestamp);
        assert(todas.subrange(0, todas.len() - 2) == primeras + resto);
    }
}

/// Transactions numbered on from where others end continue their numbering.
proof fn lema_numeraciones_seguidas(
    primeras: Seq<Transaccion>,
    segundas: Seq<Transaccion>,
    primero: u32,
)
    requires
        numeradas(primeras, primero),
        numeradas(segundas, avanzar(primero, primeras.len())),
    ensures
        numeradas(primeras + segundas, primero),
        avanzar(avanzar(primero, primeras.len()), segundas.len()) == avanzar(
            primero,
            (primeras + segundas).len(),
        ),
{
    let todas = primeras + segundas;
    assert forall|i: int| 0 <= i < todas.len() implies (#[trigger] todas[i]).id == avanzar(
        primero,
        i as nat,
    ) by {
        if i < primeras.len() {
            assert(todas[i] == primeras[i]);
        } else {
            assert(todas[i] == segundas[i - primeras.len()]);
            lema_avanzar_compone(primero, primeras.len(), (i - primeras.len()) as nat);
        }
    }
    lema_avanzar_compone(primero, primeras.len(), segundas.len());
}

/// Moving on `a` places and then `b` places is moving on `a + b` places.
proof fn lema_avanzar_compone(n: u32, a: nat, b: nat)
    ensures
        avanzar(avanzar(n, a), b) == avanzar(n, a + b),
{
    vstd::arithmetic::div_mod::lemma_add_mod_noop_right(b as int, n + a, 0x1_0000_0000);
}

/// Two transactions numbered on from the last keep the numbering.
proof fn lema_numeracion_crece(
    pendientes: Seq<Transaccion>,
    salida: Transaccion,
    entrada: Transaccion,
    primero: u32,
)
    requires
        numeradas(pendientes, primero),
        salida.id == avanzar(primero, pendientes.len()),
        entrada.id == siguiente(salida.id),
    ensures
        numeradas(pendientes.push(salida).push(entrada), primero),
        siguiente(entrada.id) == avanzar(primero, pendientes.len() + 2),
{
    let crecido = pendientes.push(salida).push(entrada);
    assert forall|i: int| 0 <= i < crecido.len() implies (#[trigger] crecido[i]).id == avanzar(
        primero,
        i as nat,
    ) by {
        if i < pendientes.len() {
            assert(crecido[i] == pendientes[i]);
        }
    }
}

} // verus!
