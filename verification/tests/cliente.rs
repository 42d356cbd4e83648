use pipeline_transacciones::cliente::{Cliente, SALDO_INICIAL_MAXIMO, SALDO_INICIAL_MINIMO};
use pipeline_transacciones::simulacion::{
    simular_transacciones, CANTIDAD_MAXIMA_OPERACIONES, CANTIDAD_MINIMA_OPERACIONES,
    MONTO_MAXIMO_TRANSFERENCIA, MONTO_MINIMO_TRANSFERENCIA, PROBABILIDAD_TRANSACCION_NO_PROCESADA,
};
use pipeline_transacciones::transaccion::{TipoTransaccion, Transaccion};
use rand::prelude::StdRng;
use rand::SeedableRng;
use uuid::Uuid;

const AHORA: u128 = 1_636_000_000_000;

fn crear_cliente() -> (Cliente, StdRng) {
    crear_cliente_con_semilla(2_64)
}

fn crear_cliente_con_semilla(semilla: u64) -> (Cliente, StdRng) {
    let mut rng = StdRng::seed_from_u64(semilla);
    let cliente = Cliente::new(Uuid::new_v4().as_u128(), &mut rng);
    (cliente, rng)
}

#[test]
fn saldo_inicial_esta_entre_el_minimo_y_maximo() {
    let (cliente, _) = crear_cliente();
    assert!(cliente.get_saldo() >= SALDO_INICIAL_MINIMO);
    assert!(cliente.get_saldo() <= SALDO_INICIAL_MAXIMO);
}

#[test]
fn realizar_transferencia_pasa_saldo_de_un_cliente_a_otro_cuando_no_queda_por_procesar() {
    let (cliente1, mut rng1) = crear_cliente();
    let (cliente2, _) = crear_cliente();
    let saldo1 = cliente1.get_saldo();
    let saldo2 = cliente2.get_saldo();
    let monto = 105_25;
    let mut clientes = vec![cliente1, cliente2];
    let pendiente =
        Cliente::realizar_transferencia(&mut clientes, 0, 1, monto, &mut rng1, 1, 1, AHORA);
    assert!(pendiente.is_none());
    assert_eq!(clientes[0].get_saldo(), saldo1 - monto as i128);
    assert_eq!(clientes[1].get_saldo(), saldo2 + monto as i128);
}

#[test]
fn cliente_realizar_transferencia_no_pasa_saldo_de_un_cliente_a_otro_si_queda_sin_procesar() {
    let (cliente1, mut rng1) = crear_cliente_con_semilla(21_64);
    let (cliente2, _) = crear_cliente();
    let saldo1 = cliente1.get_saldo();
    let saldo2 = cliente2.get_saldo();
    let id1 = cliente1.id();
    let id2 = cliente2.id();
    let monto = 105_25;
    let mut clientes = vec![cliente1, cliente2];
    let pendiente =
        Cliente::realizar_transferencia(&mut clientes, 0, 1, monto, &mut rng1, 1, 1, AHORA);
    assert_eq!(clientes[0].get_saldo(), saldo1);
    assert_eq!(clientes[1].get_saldo(), saldo2);
    let (record, siguiente) = pendiente.unwrap();
    assert_eq!(record.id, 1);
    assert_eq!(record.id_cliente, id1);
    assert_eq!(record.tipo, TipoTransaccion::CashOut);
    assert_eq!(record.monto, monto);
    assert_eq!(siguiente.id, 1);
    assert_eq!(siguiente.id_cliente, id2);
    assert_eq!(siguiente.tipo, TipoTransaccion::CashIn);
    assert_eq!(siguiente.monto, monto);
}

#[test]
fn el_saldo_inicial_reparte_los_bits_entre_el_minimo_y_el_maximo() {
    assert_eq!(Cliente::saldo_inicial(0), 10_000);
    assert_eq!(Cliente::saldo_inicial(511), 10_000);
    assert_eq!(Cliente::saldo_inicial(512), 10_000);
    assert_eq!(Cliente::saldo_inicial(1 << 31), 505_000);
    assert_eq!(Cliente::saldo_inicial(u32::MAX), 999_999);
    assert_eq!(SALDO_INICIAL_MINIMO, 10_000);
    assert_eq!(SALDO_INICIAL_MAXIMO, 1_000_000);
}

#[test]
fn resolver_transferencia_decide_por_la_fraccion_sorteada() {
    let limite = PROBABILIDAD_TRANSACCION_NO_PROCESADA;
    let mut clientes = vec![Cliente::con_saldo(1, 1_000), Cliente::con_saldo(2, 5_000)];
    let pendiente = Cliente::resolver_transferencia(
        &mut clientes,
        0,
        1,
        700,
        (limite - 1) << 11,
        8,
        9,
        AHORA,
    );
    let (salida, entrada) = pendiente.unwrap();
    assert_eq!(clientes[0].get_saldo(), 1_000);
    assert_eq!(clientes[1].get_saldo(), 5_000);
    assert_eq!(salida.id, 8);
    assert_eq!(salida.id_cliente, 1);
    assert_eq!(salida.timestamp, AHORA);
    assert_eq!(salida.tipo, TipoTransaccion::CashOut);
    assert_eq!(salida.monto, 700);
    assert_eq!(entrada.id, 9);
    assert_eq!(entrada.id_cliente, 2);
    assert_eq!(entrada.timestamp, AHORA);
    assert_eq!(entrada.tipo, TipoTransaccion::CashIn);
    assert_eq!(entrada.monto, 700);

    let pendiente =
        Cliente::resolver_transferencia(&mut clientes, 0, 1, 700, limite << 11, 8, 9, AHORA);
    assert!(pendiente.is_none());
    assert_eq!(clientes[0].get_saldo(), 300);
    assert_eq!(clientes[1].get_saldo(), 5_700);

    let pendiente =
        Cliente::resolver_transferencia(&mut clientes, 1, 1, 700, u64::MAX, 8, 9, AHORA);
    assert!(pendiente.is_none());
    assert_eq!(clientes[0].get_saldo(), 300);
    assert_eq!(clientes[1].get_saldo(), 5_700);
}

#[test]
fn escribir_transaccion_pendiente_lleva_los_datos_del_cliente() {
    let cliente = Cliente::con_saldo(77, 1_000);
    let t = cliente.escribir_transaccion_pendiente(TipoTransaccion::CashIn, 250, 3, AHORA);
    assert_eq!(t.id, 3);
    assert_eq!(t.id_cliente, 77);
    assert_eq!(t.timestamp, AHORA);
    assert_eq!(t.tipo, TipoTransaccion::CashIn);
    assert_eq!(t.monto, 250);
}

fn revisar_pendientes(pendientes: &[Transaccion], ids: &[u128]) {
    assert_eq!(pendientes.len() % 2, 0);
    for (i, t) in pendientes.iter().enumerate() {
        assert_eq!(t.id, i as u32 + 1);
        assert_eq!(t.timestamp, AHORA);
        assert!(ids.contains(&t.id_cliente));
        assert!(t.monto >= MONTO_MINIMO_TRANSFERENCIA && t.monto < MONTO_MAXIMO_TRANSFERENCIA);
    }
    for par in pendientes.chunks(2) {
        assert_eq!(par[0].tipo, TipoTransaccion::CashOut);
        assert_eq!(par[1].tipo, TipoTransaccion::CashIn);
        assert_eq!(par[0].monto, par[1].monto);
    }
}

#[test]
fn la_simulacion_conserva_el_dinero_y_empareja_los_pendientes() {
    let (clientes, pendientes) = simular_transacciones(10, 1234, AHORA);
    assert_eq!(clientes.len(), 10);
    let ids: Vec<u128> = clientes.iter().map(|c| c.id()).collect();
    for id in &ids {
        assert_eq!(Uuid::from_u128(*id).get_version_num(), 4);
    }
    let total: i128 = clientes.iter().map(|c| c.get_saldo()).sum();
    assert!(total >= 10 * SALDO_INICIAL_MINIMO);
    assert!(total <= 10 * (SALDO_INICIAL_MAXIMO - 1));
    revisar_pendientes(&pendientes, &ids);
    assert!(!pendientes.is_empty());
    // Ten clients make at least ten and fewer than a hundred transfers each.
    assert!(pendientes.len() / 2 <= 10 * (CANTIDAD_MAXIMA_OPERACIONES as usize - 1));
    assert!(CANTIDAD_MINIMA_OPERACIONES < CANTIDAD_MAXIMA_OPERACIONES);
    // The last client is never drawn as the receiver of a transfer.
    let ultimo = ids[9];
    assert!(pendientes
        .iter()
        .all(|t| t.tipo == TipoTransaccion::CashOut || t.id_cliente != ultimo));
}

#[test]
fn la_misma_semilla_da_los_mismos_saldos_y_los_mismos_pendientes() {
    let (clientes_a, pendientes_a) = simular_transacciones(6, 99, AHORA);
    let (clientes_b, pendientes_b) = simular_transacciones(6, 99, AHORA);
    let saldos_a: Vec<i128> = clientes_a.iter().map(|c| c.get_saldo()).collect();
    let saldos_b: Vec<i128> = clientes_b.iter().map(|c| c.get_saldo()).collect();
    assert_eq!(saldos_a, saldos_b);
    let montos_a: Vec<u64> = pendientes_a.iter().map(|t| t.monto).collect();
    let montos_b: Vec<u64> = pendientes_b.iter().map(|t| t.monto).collect();
    assert_eq!(montos_a, montos_b);
}

#[test]
fn sin_clientes_no_hay_simulacion() {
    let (clientes, pendientes) = simular_transacciones(0, 5, AHORA);
    assert!(clientes.is_empty());
    assert!(pendientes.is_empty());
}

#[test]
fn operar_deja_los_pendientes_numerados_desde_el_contador() {
    let mut rng = StdRng::seed_from_u64(7);
    let mut clientes = vec![
        Cliente::con_saldo(1, 500_000),
        Cliente::con_saldo(2, 500_000),
        Cliente::con_saldo(3, 500_000),
    ];
    let mut n_transaccion = u32::MAX - 1;
    let mut pendientes = Vec::new();
    let mut vueltas = 0;
    while pendientes.len() < 4 {
        Cliente::operar(&mut clientes, 2, &mut rng, &mut n_transaccion, AHORA, &mut pendientes);
        vueltas += 1;
        assert!(vueltas < 1_000);
    }
    let total: i128 = clientes.iter().map(|c| c.get_saldo()).sum();
    assert_eq!(total, 1_500_000);
    assert_eq!(pendientes[0].id, u32::MAX - 1);
    assert_eq!(pendientes[1].id, u32::MAX);
    assert_eq!(pendientes[2].id, 0);
    assert_eq!(pendientes[3].id, 1);
    assert_eq!(n_transaccion, (pendientes.len() as u32).wrapping_sub(2));
    assert!(pendientes.iter().step_by(2).all(|t| t.id_cliente == 3));
    assert!(pendientes.iter().skip(1).step_by(2).all(|t| t.id_cliente != 3));
}
