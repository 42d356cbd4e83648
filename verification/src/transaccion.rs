//! The records that flow through the pipeline.
//!
//! Money is counted in hundredths of the currency unit, and identifiers of
//! clients and authorization tokens are the 128 bits of a UUID.

use vstd::prelude::*;

verus! {

/// Hundredths in one unit of currency.
pub const CENTAVOS_POR_UNIDAD: u64 = 100;

/// The direction of a transaction, seen from the client's account.
#[derive(Debug, Clone, Copy, PartialEq, Eq, Structural)]
pub enum TipoTransaccion {
    CashIn,
    CashOut,
}

/// One transaction of the log. It is never changed after it is made.
#[derive(Debug)]
pub struct Transaccion {
    pub id: u32,
    pub id_cliente: u128,
    pub timestamp: u128,
    pub tipo: TipoTransaccion,
    /// Amount in hundredths; never negative.
    pub monto: u64,
}

/// An authorization token: an opaque value with no meaning beyond its bits.
pub type HashAutorizacion = u128;

/// A transaction together with the token that authorized it.
#[derive(Debug)]
pub struct TransaccionAutorizada {
    pub transaccion: Transaccion,
    pub autorizacion: HashAutorizacion,
}

/// A settled transaction: what was applied, the balance it left in the
/// client's account, and when it was settled.
#[derive(Debug)]
pub struct TransaccionExitosa {
    pub transaccion: TransaccionAutorizada,
    /// Balance of the account right after the update, in hundredths.
    pub saldo_final: i128,
    pub timestamp: u128,
}

impl TransaccionAutorizada {
    /// Pairs a transaction with a token. The transaction is carried over
    /// unchanged, so its id and its client are those of the input.
    pub fn new(transaccion: Transaccion, autorizacion: HashAutorizacion) -> (autorizada: Self)
        ensures
            autorizada.transaccion == transaccion,
            autorizada.autorizacion == autorizacion,
    {
        Self { transaccion, autorizacion }
    }
}

} // verus!
