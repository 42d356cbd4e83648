//! Client accounts.
//!
//! An account is a client's identifier and a balance in hundredths. Once the
//! pipeline runs, the settlement worker is the only writer of balances;
//! everyone else reads.

use vstd::prelude::*;
use rand::rngs::StdRng;
use crate::azar::sortear_bits_cortos;

verus! {

/// The least balance with which an account is opened, in hundredths.
pub const SALDO_INICIAL_MINIMO: i128 = 10_000;

/// The balance below which every account is opened, in hundredths.
pub const SALDO_INICIAL_MAXIMO: i128 = 1_000_000;

/// What an account is, to the contracts.
pub struct ClienteView {
    pub id: u128,
    pub saldo: i128,
}

/// The identifiers of the clients, in the order of the accounts.
pub open spec fn ids_de(clientes: Seq<ClienteView>) -> Seq<u128> {
    Seq::new(clientes.len(), |i: int| clientes[i].id)
}

/// The views of the accounts, in their order.
pub open spec fn vistas_de(clientes: Seq<Cliente>) -> Seq<ClienteView> {
    Seq::new(clientes.len(), |i: int| clientes[i]@)
}

/// The account of one client.
#[derive(Debug)]
pub struct Cliente {
    id: u128,
    saldo: i128,
}

impl View for Cliente {
    type V = ClienteView;

    closed spec fn view(&self) -> ClienteView {
        ClienteView { id: self.id, saldo: self.saldo }
    }
}

impl Cliente {
    /// The account of the client `id`, opened with a balance drawn from
    /// `rng`: 23 random bits spread evenly from the least opening balance up
    /// to, and without, the greatest.
    pub fn new(id: u128, rng: &mut StdRng) -> (cliente: Self)
        ensures
            cliente@.id == id,
            SALDO_INICIAL_MINIMO <= cliente@.saldo < SALDO_INICIAL_MAXIMO,
    {
        let bits = sortear_bits_cortos(rng);
        Self::con_saldo(id, Self::saldo_inicial(bits))
    }

    /// The opening balance that 32 random bits stand for: their upper 23
    /// bits, as a fraction of the span between the least and the greatest
    /// opening balance, above the least.
    pub fn saldo_inicial(bits: u32) -> (saldo: i128)
        ensures
            saldo == SALDO_INICIAL_MINIMO + ((bits as int / 512) * (SALDO_INICIAL_MAXIMO
                - SALDO_INICIAL_MINIMO)) / 8_388_608,
            SALDO_INICIAL_MINIMO <= saldo < SALDO_INICIAL_MAXIMO,
    {
        let fraccion = (bits >> 9) as i128;
        assert(bits >> 9 == bits / 512 && bits >> 9 < 8_388_608) by (bit_vector);
        SALDO_INICIAL_MINIMO + (fraccion * (SALDO_INICIAL_MAXIMO - SALDO_INICIAL_MINIMO))
            / 8_388_608
    }

    /// The account of the client `id`, opened with the balance
    /// `saldo_inicial`.
    pub fn con_saldo(id: u128, saldo_inicial: i128) -> (cliente: Self)
        ensures
            cliente@ == (ClienteView { id, saldo: saldo_inicial }),
    {
        Cliente { id, saldo: saldo_inicial }
    }

    /// The identifier of the client.
    pub fn id(&self) -> (id: u128)
        ensures
            id == self@.id,
    {
        self.id
    }

    /// Adds `monto` to the balance. The new balance must fit the balance's
    /// type.
    pub fn cash_in(&mut self, monto: u64)
        requires
            old(self)@.saldo + monto <= i128::MAX,
        ensures
            final(self)@ == (ClienteView { saldo: (old(self)@.saldo + monto) as i128, ..old(self)@ }),
    {
        self.saldo = self.saldo + monto as i128;
    }

    /// Takes `monto` from the balance, which may go below zero. The new
    /// balance must fit the balance's type.
    pub fn cash_out(&mut self, monto: u64)
        requires
            old(self)@.saldo - monto >= i128::MIN,
        ensures
            final(self)@ == (ClienteView { saldo: (old(self)@.saldo - monto) as i128, ..old(self)@ }),
    {
        self.saldo = self.saldo - monto as i128;
    }

    /// The balance.
    pub fn get_saldo(&self) -> (saldo: i128)
        ensures
            saldo == self@.saldo,
    {
        self.saldo
    }
}

} // verus!
