use pipeline_transacciones::cliente::Cliente;
use pipeline_transacciones::cola::Cola;
use pipeline_transacciones::transaccion::{TipoTransaccion, Transaccion, TransaccionAutorizada};
use pipeline_transacciones::worker_final::{ErrorLiquidacion, EstadoFinal, PasoFinal, WorkerFinal};
use uuid::Uuid;

fn autorizada(id: u32, id_cliente: u128, tipo: TipoTransaccion, monto: u64) -> TransaccionAutorizada {
    TransaccionAutorizada {
        transaccion: Transaccion { id, id_cliente, timestamp: 112315846_128, tipo, monto },
        autorizacion: 9000 + id as u128,
    }
}

#[test]
fn worker_final_realizar_transferencia_no_pasa_saldo_de_un_cliente_a_otro_si_queda_sin_procesar() {
    let id_cliente = Uuid::new_v4().as_u128();
    let cliente = Cliente::con_saldo(id_cliente, 512_075);

    let mut transacciones_validadas = Cola::new();

    let saldo_anterior = cliente.get_saldo();
    let transaccion_id = 2;
    let monto = 12333;
    let transaccion = Transaccion {
        id: transaccion_id,
        id_cliente: cliente.id(),
        timestamp: 112315846_128,
        tipo: TipoTransaccion::CashIn,
        monto,
    };
    let hash = Uuid::new_v4().as_u128();
    let transaccion_autorizada = TransaccionAutorizada { transaccion: transaccion, autorizacion: hash };

    transacciones_validadas.enviar(transaccion_autorizada).unwrap();
    let mut worker = WorkerFinal::iniciar(vec![cliente]);
    transacciones_validadas.cerrar();
    let fin = worker.procesar_transacciones(&mut transacciones_validadas, 1_636_000_000_000);
    assert_eq!(fin, Ok(PasoFinal::Termino));

    let registros = worker.tomar_registros();
    assert_eq!(registros.len(), 1);
    let record = &registros[0];
    assert_eq!(record.transaccion.transaccion.id, transaccion_id);
    assert_eq!(record.transaccion.transaccion.id_cliente, id_cliente);
    assert_eq!(record.transaccion.transaccion.tipo, TipoTransaccion::CashIn);
    assert_eq!(record.transaccion.transaccion.monto, monto);
    assert_eq!(record.transaccion.autorizacion, hash);
    assert_eq!(record.saldo_final, saldo_anterior + monto as i128);
}

#[test]
fn cash_in_suma_y_cash_out_resta() {
    let mut cliente = Cliente::con_saldo(7, 10_000);
    assert_eq!(cliente.id(), 7);
    assert_eq!(cliente.get_saldo(), 10_000);
    cliente.cash_in(5_000);
    assert_eq!(cliente.get_saldo(), 15_000);
    cliente.cash_out(20_000);
    assert_eq!(cliente.get_saldo(), -5_000);
    cliente.cash_in(0);
    assert_eq!(cliente.get_saldo(), -5_000);
}

#[test]
fn liquidar_un_cash_in_deja_saldo_mas_monto() {
    let mut clientes = vec![Cliente::con_saldo(1, 100), Cliente::con_saldo(2, 20_000)];
    let registro =
        WorkerFinal::liquidar(&mut clientes, autorizada(5, 2, TipoTransaccion::CashIn, 1_234), 77)
            .unwrap();
    assert_eq!(registro.saldo_final, 21_234);
    assert_eq!(registro.timestamp, 77);
    assert_eq!(registro.transaccion.transaccion.id, 5);
    assert_eq!(registro.transaccion.autorizacion, 9005);
    assert_eq!(clientes[1].get_saldo(), 21_234);
    assert_eq!(clientes[0].get_saldo(), 100);
}

#[test]
fn liquidar_un_cash_out_deja_saldo_menos_monto() {
    let mut clientes = vec![Cliente::con_saldo(1, 100), Cliente::con_saldo(2, 20_000)];
    let registro =
        WorkerFinal::liquidar(&mut clientes, autorizada(5, 1, TipoTransaccion::CashOut, 250), 78)
            .unwrap();
    assert_eq!(registro.saldo_final, -150);
    assert_eq!(clientes[0].get_saldo(), -150);
    assert_eq!(clientes[1].get_saldo(), 20_000);
}

#[test]
fn liquidar_con_cliente_desconocido_no_cambia_nada() {
    let mut clientes = vec![Cliente::con_saldo(1, 100), Cliente::con_saldo(2, 20_000)];
    let error =
        WorkerFinal::liquidar(&mut clientes, autorizada(5, 3, TipoTransaccion::CashIn, 250), 78)
            .unwrap_err();
    assert_eq!(error, ErrorLiquidacion::ClienteDesconocido { id_cliente: 3 });
    assert_eq!(clientes[0].get_saldo(), 100);
    assert_eq!(clientes[1].get_saldo(), 20_000);
}

#[test]
fn liquidar_fuera_de_rango_no_cambia_nada() {
    let mut clientes = vec![Cliente::con_saldo(1, i128::MAX - 10), Cliente::con_saldo(2, i128::MIN + 10)];
    let error =
        WorkerFinal::liquidar(&mut clientes, autorizada(5, 1, TipoTransaccion::CashIn, 11), 78)
            .unwrap_err();
    assert_eq!(error, ErrorLiquidacion::SaldoFueraDeRango { id_cliente: 1 });
    let error =
        WorkerFinal::liquidar(&mut clientes, autorizada(6, 2, TipoTransaccion::CashOut, 11), 78)
            .unwrap_err();
    assert_eq!(error, ErrorLiquidacion::SaldoFueraDeRango { id_cliente: 2 });
    assert_eq!(clientes[0].get_saldo(), i128::MAX - 10);
    assert_eq!(clientes[1].get_saldo(), i128::MIN + 10);
    assert!(WorkerFinal::liquidar(&mut clientes, autorizada(7, 1, TipoTransaccion::CashIn, 10), 78).is_ok());
    assert!(WorkerFinal::liquidar(&mut clientes, autorizada(8, 2, TipoTransaccion::CashOut, 10), 78).is_ok());
    assert_eq!(clientes[0].get_saldo(), i128::MAX);
    assert_eq!(clientes[1].get_saldo(), i128::MIN);
}

#[test]
fn liquidar_usa_la_primera_cuenta_del_cliente() {
    let mut clientes = vec![Cliente::con_saldo(1, 100), Cliente::con_saldo(2, 200), Cliente::con_saldo(2, 300)];
    let registro =
        WorkerFinal::liquidar(&mut clientes, autorizada(5, 2, TipoTransaccion::CashIn, 1), 1)
            .unwrap();
    assert_eq!(registro.saldo_final, 201);
    assert_eq!(clientes[1].get_saldo(), 201);
    assert_eq!(clientes[2].get_saldo(), 300);
}

#[test]
fn los_saldos_reflejan_las_transacciones_liquidadas_en_orden() {
    let mut validadas = Cola::new();
    validadas.enviar(autorizada(1, 10, TipoTransaccion::CashIn, 500)).unwrap();
    validadas.enviar(autorizada(2, 20, TipoTransaccion::CashOut, 300)).unwrap();
    validadas.enviar(autorizada(3, 10, TipoTransaccion::CashOut, 700)).unwrap();
    validadas.enviar(autorizada(4, 10, TipoTransaccion::CashIn, 50)).unwrap();
    let mut worker = WorkerFinal::iniciar(vec![Cliente::con_saldo(10, 1_000), Cliente::con_saldo(20, 2_000)]);
    let r = worker.procesar_transacciones(&mut validadas, 99);
    assert_eq!(r, Ok(PasoFinal::Bloqueado));
    assert_eq!(worker.saldo_de(10), Some(850));
    assert_eq!(worker.saldo_de(20), Some(1_700));
    assert_eq!(worker.saldo_de(30), None);
    let registros = worker.tomar_registros();
    let saldos: Vec<i128> = registros.iter().map(|r| r.saldo_final).collect();
    assert_eq!(saldos, vec![1_500, 1_700, 800, 850]);
    let ids: Vec<u32> = registros.iter().map(|r| r.transaccion.transaccion.id).collect();
    assert_eq!(ids, vec![1, 2, 3, 4]);
    assert!(registros.iter().all(|r| r.timestamp == 99));
    assert!(worker.tomar_registros().is_empty());

    validadas.enviar(autorizada(5, 20, TipoTransaccion::CashIn, 1)).unwrap();
    validadas.cerrar();
    assert_eq!(worker.paso(&mut validadas, 100), Ok(PasoFinal::Liquido));
    assert_eq!(worker.paso(&mut validadas, 101), Ok(PasoFinal::Termino));
    assert!(matches!(worker.estado(), EstadoFinal::Terminado));
    let registros = worker.tomar_registros();
    assert_eq!(registros.len(), 1);
    assert_eq!(registros[0].saldo_final, 1_701);
    assert_eq!(registros[0].timestamp, 100);
}

#[test]
fn un_cliente_desconocido_detiene_al_worker_final() {
    let mut validadas = Cola::new();
    validadas.enviar(autorizada(1, 10, TipoTransaccion::CashIn, 500)).unwrap();
    validadas.enviar(autorizada(2, 99, TipoTransaccion::CashIn, 300)).unwrap();
    validadas.enviar(autorizada(3, 10, TipoTransaccion::CashIn, 700)).unwrap();
    let mut worker = WorkerFinal::iniciar(vec![Cliente::con_saldo(10, 1_000)]);
    let r = worker.procesar_transacciones(&mut validadas, 99);
    assert_eq!(r, Err(ErrorLiquidacion::ClienteDesconocido { id_cliente: 99 }));
    assert!(matches!(worker.estado(), EstadoFinal::Fallido(_)));
    assert_eq!(worker.saldo_de(10), Some(1_500));
    assert_eq!(validadas.len(), 1);
    let r = worker.procesar_transacciones(&mut validadas, 100);
    assert_eq!(r, Err(ErrorLiquidacion::ClienteDesconocido { id_cliente: 99 }));
    assert_eq!(validadas.len(), 1);
    assert_eq!(worker.saldo_de(10), Some(1_500));
    assert_eq!(worker.tomar_registros().len(), 1);
}
