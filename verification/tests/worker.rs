use pipeline_transacciones::cola::{Cola, Recepcion};
use pipeline_transacciones::transaccion::{TipoTransaccion, Transaccion, TransaccionAutorizada};
use pipeline_transacciones::autorizacion::ejecutar_turnos;
use pipeline_transacciones::worker::{iniciar_workers_de_tipo, Paso, TipoWorker, Worker};
use uuid::Uuid;

fn transaccion(id: u32) -> Transaccion {
    Transaccion {
        id,
        id_cliente: 1000 + id as u128,
        timestamp: 112315846_128,
        tipo: TipoTransaccion::CashIn,
        monto: 12333,
    }
}

fn recibir(cola: &mut Cola<TransaccionAutorizada>) -> TransaccionAutorizada {
    match cola.recibir() {
        Recepcion::Elemento(t) => t,
        otro => panic!("se esperaba una transaccion autorizada y llego {:?}", otro),
    }
}

#[test]
fn worker_solicitia_hash_y_envia_transaccion_autorizada() {
    let id_transaccion = 2;
    let transaccion = Transaccion {
        id: id_transaccion,
        id_cliente: Uuid::new_v4().as_u128(),
        timestamp: 112315846_128,
        tipo: TipoTransaccion::CashIn,
        monto: 12333,
    };

    let mut transacciones = Cola::new();
    let mut autorizacion = Cola::new();
    let mut transacciones_autorizadas = Cola::new();

    transacciones.enviar(transaccion).unwrap();
    let hash = Uuid::new_v4().as_u128();
    autorizacion.enviar(hash).unwrap();

    let mut worker = Worker::iniciar(TipoWorker::CashIn, 0, &mut transacciones_autorizadas);
    worker.procesar(&mut transacciones, &mut autorizacion, &mut transacciones_autorizadas);
    let recibida = recibir(&mut transacciones_autorizadas);
    assert_eq!(recibida.transaccion.id, id_transaccion);
    assert_eq!(recibida.autorizacion, hash);
}

#[test]
fn transaccion_autorizada_conserva_la_transaccion_y_lleva_el_hash() {
    let autorizada = TransaccionAutorizada::new(transaccion(9), 77);
    assert_eq!(autorizada.transaccion.id, 9);
    assert_eq!(autorizada.transaccion.id_cliente, 1009);
    assert_eq!(autorizada.transaccion.timestamp, 112315846_128);
    assert_eq!(autorizada.transaccion.tipo, TipoTransaccion::CashIn);
    assert_eq!(autorizada.transaccion.monto, 12333);
    assert_eq!(autorizada.autorizacion, 77);
}

#[test]
fn worker_avanza_paso_a_paso() {
    let mut transacciones = Cola::new();
    let mut hashes = Cola::new();
    let mut autorizadas = Cola::new();
    let mut worker = Worker::iniciar(TipoWorker::CashOut, 3, &mut autorizadas);
    assert_eq!(worker.tipo(), TipoWorker::CashOut);
    assert_eq!(worker.id(), 3);
    assert_eq!(autorizadas.productores(), 1);

    assert_eq!(worker.paso(&mut transacciones, &mut hashes, &mut autorizadas), Paso::Bloqueado);
    transacciones.enviar(transaccion(1)).unwrap();
    assert_eq!(worker.paso(&mut transacciones, &mut hashes, &mut autorizadas), Paso::Avanzo);
    assert_eq!(worker.retenida().unwrap().id, 1);
    assert_eq!(worker.paso(&mut transacciones, &mut hashes, &mut autorizadas), Paso::Bloqueado);
    assert_eq!(autorizadas.len(), 0);
    hashes.enviar(55).unwrap();
    assert_eq!(worker.paso(&mut transacciones, &mut hashes, &mut autorizadas), Paso::Avanzo);
    assert!(worker.retenida().is_none());
    assert_eq!(autorizadas.len(), 1);
    transacciones.cerrar();
    assert!(worker.esta_activo());
    assert_eq!(worker.paso(&mut transacciones, &mut hashes, &mut autorizadas), Paso::Termino);
    assert!(!worker.esta_activo());
    assert!(!worker.aborto());
    assert!(autorizadas.esta_cerrada());
    assert_eq!(worker.paso(&mut transacciones, &mut hashes, &mut autorizadas), Paso::Termino);
    let recibida = recibir(&mut autorizadas);
    assert_eq!(recibida.transaccion.id, 1);
    assert_eq!(recibida.autorizacion, 55);
}

#[test]
fn worker_empareja_en_orden_hasta_que_faltan_hashes() {
    let mut transacciones = Cola::new();
    let mut hashes = Cola::new();
    let mut autorizadas = Cola::new();
    for id in 1..=5 {
        transacciones.enviar(transaccion(id)).unwrap();
    }
    for hash in [10u128, 20, 30] {
        hashes.enviar(hash).unwrap();
    }
    let mut worker = Worker::iniciar(TipoWorker::CashIn, 0, &mut autorizadas);
    let r = worker.procesar(&mut transacciones, &mut hashes, &mut autorizadas);
    assert_eq!(r, Paso::Bloqueado);
    assert_eq!(autorizadas.len(), 3);
    assert_eq!(hashes.len(), 0);
    assert_eq!(transacciones.len(), 1);
    assert_eq!(worker.retenida().unwrap().id, 4);
    for (id, hash) in [(1u32, 10u128), (2, 20), (3, 30)] {
        let a = recibir(&mut autorizadas);
        assert_eq!(a.transaccion.id, id);
        assert_eq!(a.transaccion.id_cliente, 1000 + id as u128);
        assert_eq!(a.autorizacion, hash);
    }
}

#[test]
fn worker_pierde_la_transaccion_si_se_cierra_el_proveedor_de_hashes() {
    let mut transacciones = Cola::new();
    let mut hashes = Cola::new();
    let mut autorizadas = Cola::new();
    transacciones.enviar(transaccion(1)).unwrap();
    transacciones.enviar(transaccion(2)).unwrap();
    hashes.enviar(10u128).unwrap();
    hashes.cerrar();
    let mut worker = Worker::iniciar(TipoWorker::CashIn, 0, &mut autorizadas);
    let r = worker.procesar(&mut transacciones, &mut hashes, &mut autorizadas);
    assert_eq!(r, Paso::Aborto);
    assert!(worker.aborto());
    assert!(!worker.esta_activo());
    assert_eq!(worker.retenida().unwrap().id, 2);
    assert_eq!(autorizadas.len(), 1);
    assert!(autorizadas.esta_cerrada());
    assert_eq!(worker.procesar(&mut transacciones, &mut hashes, &mut autorizadas), Paso::Aborto);
    assert_eq!(recibir(&mut autorizadas).transaccion.id, 1);
}

#[test]
fn worker_termina_cuando_se_agota_la_entrada() {
    let mut transacciones = Cola::new();
    let mut hashes = Cola::new();
    let mut autorizadas = Cola::new();
    transacciones.enviar(transaccion(1)).unwrap();
    transacciones.cerrar();
    hashes.enviar(10u128).unwrap();
    hashes.enviar(11u128).unwrap();
    let mut worker = Worker::iniciar(TipoWorker::CashIn, 0, &mut autorizadas);
    let r = worker.procesar(&mut transacciones, &mut hashes, &mut autorizadas);
    assert_eq!(r, Paso::Termino);
    assert_eq!(autorizadas.len(), 1);
    assert_eq!(hashes.len(), 1);
    assert!(autorizadas.esta_cerrada());
}

#[test]
fn iniciar_workers_de_tipo_registra_a_cada_worker_como_productor() {
    let mut autorizadas: Cola<TransaccionAutorizada> = Cola::new();
    let workers = iniciar_workers_de_tipo(4, TipoWorker::CashOut, &mut autorizadas);
    assert_eq!(workers.len(), 4);
    for (i, worker) in workers.iter().enumerate() {
        assert_eq!(worker.id(), i as u32);
        assert_eq!(worker.tipo(), TipoWorker::CashOut);
        assert!(worker.esta_activo());
    }
    assert_eq!(autorizadas.productores(), 4);
    assert!(!autorizadas.esta_cerrada());
}

/// Turns handed out by a small congruential generator, so that the order is
/// scrambled and the same on every run.
fn turnos_revueltos(n_workers: usize, cantidad: usize, semilla: u64) -> Vec<usize> {
    let mut estado = semilla;
    let mut turnos = Vec::new();
    for _ in 0..cantidad {
        estado = estado.wrapping_mul(6364136223846793005).wrapping_add(1442695040888963407);
        turnos.push(((estado >> 33) as usize) % n_workers);
    }
    turnos
}

fn pool_autoriza_cada_transaccion_una_vez(n_workers: u32, m: u32, semilla: u64) {
    let mut transacciones = Cola::new();
    let mut hashes = Cola::new();
    let mut autorizadas = Cola::new();
    for id in 1..=m {
        transacciones.enviar(transaccion(id)).unwrap();
    }
    transacciones.cerrar();
    for hash in 0..(m as u128 + 5) {
        hashes.enviar(5000 + hash).unwrap();
    }
    let mut workers = iniciar_workers_de_tipo(n_workers, TipoWorker::CashIn, &mut autorizadas);
    let mut vueltas = 0;
    while workers.iter().any(|w| w.esta_activo()) {
        let turnos = turnos_revueltos(n_workers as usize, 16, semilla + vueltas);
        ejecutar_turnos(&mut workers, &turnos, &mut transacciones, &mut hashes, &mut autorizadas);
        if workers.iter().any(|w| w.esta_activo()) {
            assert!(!autorizadas.esta_cerrada());
        }
        vueltas += 1;
        assert!(vueltas < 10_000);
    }
    assert!(workers.iter().all(|w| !w.aborto()));
    assert!(autorizadas.esta_cerrada());
    assert_eq!(autorizadas.productores(), 0);
    assert_eq!(transacciones.len(), 0);
    assert_eq!(autorizadas.len(), m as usize);

    let mut ids = Vec::new();
    let mut usados = Vec::new();
    while let Recepcion::Elemento(a) = autorizadas.recibir() {
        assert_eq!(a.transaccion.id_cliente, 1000 + a.transaccion.id as u128);
        assert!(a.autorizacion >= 5000 && a.autorizacion < 5000 + m as u128 + 5);
        ids.push(a.transaccion.id);
        usados.push(a.autorizacion);
    }
    ids.sort();
    assert_eq!(ids, (1..=m).collect::<Vec<u32>>());
    usados.sort();
    usados.dedup();
    assert_eq!(usados.len(), m as usize);
}

#[test]
fn pool_de_dos_workers_autoriza_cada_transaccion_una_vez() {
    pool_autoriza_cada_transaccion_una_vez(2, 40, 7);
}

#[test]
fn pool_de_un_worker_autoriza_cada_transaccion_una_vez() {
    pool_autoriza_cada_transaccion_una_vez(1, 25, 11);
}

#[test]
fn pool_de_diez_workers_autoriza_cada_transaccion_una_vez() {
    pool_autoriza_cada_transaccion_una_vez(10, 200, 13);
}

#[test]
fn turno_para_un_worker_que_no_existe_no_cambia_nada() {
    let mut transacciones = Cola::new();
    let mut hashes = Cola::new();
    let mut autorizadas = Cola::new();
    transacciones.enviar(transaccion(1)).unwrap();
    hashes.enviar(10u128).unwrap();
    let mut workers = iniciar_workers_de_tipo(2, TipoWorker::CashIn, &mut autorizadas);
    ejecutar_turnos(&mut workers, &vec![2, 7, 100], &mut transacciones, &mut hashes, &mut autorizadas);
    assert_eq!(transacciones.len(), 1);
    assert_eq!(hashes.len(), 1);
    assert_eq!(autorizadas.len(), 0);
    ejecutar_turnos(&mut workers, &vec![1, 0, 1], &mut transacciones, &mut hashes, &mut autorizadas);
    assert_eq!(transacciones.len(), 0);
    assert_eq!(autorizadas.len(), 1);
    assert!(workers[0].retenida().is_none());
}

#[test]
fn dos_pools_comparten_la_salida_y_la_cierra_el_ultimo_worker() {
    let mut cashin = Cola::new();
    let mut cashout = Cola::new();
    let mut hashes = Cola::new();
    let mut autorizadas = Cola::new();
    cashin.enviar(transaccion(1)).unwrap();
    cashin.cerrar();
    cashout.enviar(transaccion(2)).unwrap();
    for hash in [10u128, 20, 30] {
        hashes.enviar(hash).unwrap();
    }
    let mut pool_in = iniciar_workers_de_tipo(2, TipoWorker::CashIn, &mut autorizadas);
    let mut pool_out = iniciar_workers_de_tipo(1, TipoWorker::CashOut, &mut autorizadas);
    assert_eq!(autorizadas.productores(), 3);
    ejecutar_turnos(&mut pool_in, &vec![0, 0, 0, 1, 1], &mut cashin, &mut hashes, &mut autorizadas);
    assert!(pool_in.iter().all(|w| !w.esta_activo()));
    assert!(!autorizadas.esta_cerrada());
    assert_eq!(autorizadas.productores(), 1);
    ejecutar_turnos(&mut pool_out, &vec![0, 0, 0], &mut cashout, &mut hashes, &mut autorizadas);
    assert!(!autorizadas.esta_cerrada());
    cashout.cerrar();
    ejecutar_turnos(&mut pool_out, &vec![0], &mut cashout, &mut hashes, &mut autorizadas);
    assert!(autorizadas.esta_cerrada());
    assert_eq!(autorizadas.len(), 2);
}
