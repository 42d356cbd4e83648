use pipeline_transacciones::cola::{Cola, Recepcion};
use pipeline_transacciones::cribado::ejecutar_turnos;
use pipeline_transacciones::fraccion::{por_debajo, PARTES_POR_UNIDAD, UN_DECIMO};
use pipeline_transacciones::ia::{
    configurar_procesadores_ia, iniciar_procesadores_ia, Parada, PasoIA, ProcesadorIA, AI,
    PROBABILIDAD_DE_INVALIDA, TIEMPO_MAXIMO_IA,
};
use pipeline_transacciones::transaccion::{TipoTransaccion, Transaccion, TransaccionAutorizada};
use uuid::Uuid;

fn autorizada(id: u32) -> TransaccionAutorizada {
    TransaccionAutorizada {
        transaccion: Transaccion {
            id,
            id_cliente: 1000 + id as u128,
            timestamp: 112315846_128,
            tipo: TipoTransaccion::CashIn,
            monto: 12333,
        },
        autorizacion: 9000 + id as u128,
    }
}

#[test]
fn procesador_ia_enviar_transaccion_validada_sino_detecta_lavado_de_dinero() {
    let id_transaccion = 2;
    let transaccion = Transaccion {
        id: id_transaccion,
        id_cliente: Uuid::new_v4().as_u128(),
        timestamp: 112315846_128,
        tipo: TipoTransaccion::CashIn,
        monto: 12333,
    };
    let hash = Uuid::new_v4().as_u128();
    let transaccion_autorizada = TransaccionAutorizada { transaccion: transaccion, autorizacion: hash };

    let mut transacciones_autorizadas = Cola::new();
    let mut transacciones_validadas = Cola::new();

    transacciones_autorizadas.enviar(transaccion_autorizada).unwrap();

    let mut procesador = ProcesadorIA::iniciar(0, 2_64, &mut transacciones_validadas);
    procesador.procesar_transacciones(&mut transacciones_autorizadas, &mut transacciones_validadas);
    let recibida = match transacciones_validadas.recibir() {
        Recepcion::Elemento(t) => t,
        otro => panic!("se esperaba una transaccion validada y llego {:?}", otro),
    };
    assert_eq!(recibida.transaccion.id, id_transaccion);
    assert_eq!(recibida.autorizacion, hash);
}

#[test]
fn procesador_ia_no_envia_transaccion_validada_si_detecta_lavado_de_dinero() {
    let id_transaccion = 2;
    let transaccion = Transaccion {
        id: id_transaccion,
        id_cliente: Uuid::new_v4().as_u128(),
        timestamp: 112315846_128,
        tipo: TipoTransaccion::CashIn,
        monto: 12333,
    };
    let hash = Uuid::new_v4().as_u128();
    let transaccion_autorizada = TransaccionAutorizada { transaccion: transaccion, autorizacion: hash };

    let mut transacciones_autorizadas = Cola::new();
    let mut transacciones_validadas = Cola::new();

    transacciones_autorizadas.enviar(transaccion_autorizada).unwrap();

    let mut procesador = ProcesadorIA::iniciar(0, 34_64, &mut transacciones_validadas);
    transacciones_autorizadas.cerrar();
    procesador.procesar_transacciones(&mut transacciones_autorizadas, &mut transacciones_validadas);
    let resultado = transacciones_validadas.recibir();
    assert!(!matches!(resultado, Recepcion::Elemento(_)));
}

#[test]
fn detectar_lavado_compara_la_fraccion_sorteada_con_el_umbral() {
    // The fraction of a draw is its upper 53 bits: 2048 is the first draw
    // with fraction one.
    assert!(ProcesadorIA::detectar_lavado(autorizada(1), 0, 1).is_err());
    assert!(ProcesadorIA::detectar_lavado(autorizada(1), 2047, 1).is_err());
    assert!(ProcesadorIA::detectar_lavado(autorizada(1), 2048, 1).is_ok());
    assert!(ProcesadorIA::detectar_lavado(autorizada(1), 0, 0).is_ok());
    assert!(ProcesadorIA::detectar_lavado(autorizada(1), u64::MAX, PARTES_POR_UNIDAD).is_err());
    assert!(ProcesadorIA::detectar_lavado(autorizada(1), u64::MAX, PARTES_POR_UNIDAD - 1).is_ok());
    // One tenth: the last fraction below it and the first that is not.
    let limite = PROBABILIDAD_DE_INVALIDA;
    assert_eq!(limite, 900_719_925_474_100);
    assert!(ProcesadorIA::detectar_lavado(autorizada(1), (limite - 1) << 11, limite).is_err());
    assert!(ProcesadorIA::detectar_lavado(autorizada(1), limite << 11, limite).is_ok());
    let devuelta = ProcesadorIA::detectar_lavado(autorizada(7), 0, 1).unwrap_err();
    assert_eq!(devuelta.transaccion.id, 7);
    assert_eq!(devuelta.autorizacion, 9007);
    let devuelta = ProcesadorIA::detectar_lavado(autorizada(8), 4096, 1).unwrap();
    assert_eq!(devuelta.transaccion.id, 8);
    assert_eq!(devuelta.autorizacion, 9008);
}

#[test]
fn el_umbral_de_un_decimo_es_un_decimo_de_las_partes_redondeado_hacia_arriba() {
    assert_eq!(PARTES_POR_UNIDAD, 1u64 << 53);
    assert_eq!(PROBABILIDAD_DE_INVALIDA, UN_DECIMO);
    assert_eq!(PROBABILIDAD_DE_INVALIDA, (PARTES_POR_UNIDAD + 9) / 10);
    assert!(por_debajo(2047, 1));
    assert!(!por_debajo(2048, 1));
    assert!(!por_debajo(0, 0));
    assert!(por_debajo(u64::MAX, PARTES_POR_UNIDAD));
    assert_eq!(PROBABILIDAD_DE_INVALIDA as f64, (0.1f64 * PARTES_POR_UNIDAD as f64).ceil());
}

#[test]
fn procesador_ia_avanza_paso_a_paso() {
    let mut autorizadas = Cola::new();
    let mut validas = Cola::new();
    let mut procesador = ProcesadorIA::configurar(4, 1, 0, 10, &mut validas);
    assert_eq!(procesador.id(), 4);
    assert_eq!(validas.productores(), 1);
    assert!(matches!(procesador.paso(&mut autorizadas, &mut validas), PasoIA::Bloqueado));
    autorizadas.enviar(autorizada(1)).unwrap();
    match procesador.paso(&mut autorizadas, &mut validas) {
        PasoIA::Tomo { demora } => assert!(demora < 10),
        otro => panic!("se esperaba que tomara la transaccion y hubo {:?}", otro),
    }
    assert_eq!(autorizadas.len(), 0);
    assert_eq!(validas.len(), 0);
    assert!(matches!(procesador.paso(&mut autorizadas, &mut validas), PasoIA::Valido));
    assert_eq!(validas.len(), 1);
    autorizadas.cerrar();
    assert!(procesador.esta_activo());
    assert!(matches!(procesador.paso(&mut autorizadas, &mut validas), PasoIA::Termino));
    assert!(!procesador.esta_activo());
    assert!(validas.esta_cerrada());
    assert!(matches!(procesador.paso(&mut autorizadas, &mut validas), PasoIA::Termino));
}

#[test]
fn la_demora_sorteada_es_siempre_menor_que_la_maxima() {
    let mut autorizadas = Cola::new();
    let mut validas = Cola::new();
    let mut procesador = ProcesadorIA::iniciar(0, 99, &mut validas);
    let mut demoras_distintas = Vec::new();
    for id in 0..500 {
        autorizadas.enviar(autorizada(id)).unwrap();
        match procesador.paso(&mut autorizadas, &mut validas) {
            PasoIA::Tomo { demora } => {
                assert!(demora < TIEMPO_MAXIMO_IA);
                if !demoras_distintas.contains(&demora) {
                    demoras_distintas.push(demora);
                }
            }
            otro => panic!("se esperaba que tomara la transaccion y hubo {:?}", otro),
        }
        match procesador.paso(&mut autorizadas, &mut validas) {
            PasoIA::Valido | PasoIA::Descarto(_) => {}
            otro => panic!("se esperaba una decision y hubo {:?}", otro),
        }
    }
    assert!(demoras_distintas.len() > 1);
}

#[test]
fn sin_demora_maxima_no_hay_demora() {
    let mut autorizadas = Cola::new();
    let mut validas = Cola::new();
    let mut procesador = ProcesadorIA::configurar(0, 5, PROBABILIDAD_DE_INVALIDA, 0, &mut validas);
    autorizadas.enviar(autorizada(1)).unwrap();
    assert!(matches!(procesador.paso(&mut autorizadas, &mut validas), PasoIA::Tomo { demora: 0 }));
}

#[test]
fn la_tasa_de_descarte_converge_al_umbral() {
    let mut autorizadas = Cola::new();
    let mut validas = Cola::new();
    let mut procesador = ProcesadorIA::iniciar(0, 20211, &mut validas);
    for id in 0..10_000 {
        autorizadas.enviar(autorizada(id)).unwrap();
    }
    let (parada, descartadas) = procesador.procesar_transacciones(&mut autorizadas, &mut validas);
    assert_eq!(parada, Parada::Bloqueado);
    assert_eq!(autorizadas.len(), 0);
    assert_eq!(validas.len() + descartadas.len(), 10_000);
    let tasa = descartadas.len() as f64 / 10_000.0;
    assert!((tasa - 0.1).abs() <= 0.02, "tasa observada: {}", tasa);
}

#[test]
fn cada_transaccion_cribada_va_a_un_solo_lado_y_conserva_su_orden() {
    let mut autorizadas = Cola::new();
    let mut validas = Cola::new();
    let mut procesador = ProcesadorIA::configurar(0, 3, PARTES_POR_UNIDAD / 2, 0, &mut validas);
    for id in 0..200 {
        autorizadas.enviar(autorizada(id)).unwrap();
    }
    autorizadas.cerrar();
    let (parada, descartadas) = procesador.procesar_transacciones(&mut autorizadas, &mut validas);
    assert_eq!(parada, Parada::Termino);
    assert!(validas.esta_cerrada());
    let mut ids_validas = Vec::new();
    while let Recepcion::Elemento(t) = validas.recibir() {
        assert_eq!(t.autorizacion, 9000 + t.transaccion.id as u128);
        ids_validas.push(t.transaccion.id);
    }
    let ids_descartadas: Vec<u32> = descartadas.iter().map(|t| t.transaccion.id).collect();
    assert!(!ids_validas.is_empty());
    assert!(!ids_descartadas.is_empty());
    assert!(ids_validas.windows(2).all(|w| w[0] < w[1]));
    assert!(ids_descartadas.windows(2).all(|w| w[0] < w[1]));
    let mut todas: Vec<u32> = ids_validas.iter().chain(ids_descartadas.iter()).cloned().collect();
    todas.sort();
    assert_eq!(todas, (0..200).collect::<Vec<u32>>());
}

#[test]
fn con_umbral_cero_nada_se_descarta() {
    let mut autorizadas = Cola::new();
    let mut validas = Cola::new();
    let mut procesador = ProcesadorIA::configurar(0, 8, 0, TIEMPO_MAXIMO_IA, &mut validas);
    for id in 0..300 {
        autorizadas.enviar(autorizada(id)).unwrap();
    }
    let (_, descartadas) = procesador.procesar_transacciones(&mut autorizadas, &mut validas);
    assert!(descartadas.is_empty());
    assert_eq!(validas.len(), 300);
}

#[test]
fn con_umbral_total_todo_se_descarta() {
    let mut autorizadas = Cola::new();
    let mut validas = Cola::new();
    let mut procesador =
        ProcesadorIA::configurar(0, 8, PARTES_POR_UNIDAD, TIEMPO_MAXIMO_IA, &mut validas);
    for id in 0..300 {
        autorizadas.enviar(autorizada(id)).unwrap();
    }
    let (_, descartadas) = procesador.procesar_transacciones(&mut autorizadas, &mut validas);
    assert_eq!(descartadas.len(), 300);
    assert_eq!(validas.len(), 0);
}

#[test]
fn la_misma_semilla_da_las_mismas_decisiones() {
    let mut decisiones = Vec::new();
    for _ in 0..2 {
        let mut autorizadas = Cola::new();
        let mut validas = Cola::new();
        let mut procesador = ProcesadorIA::iniciar(0, 777, &mut validas);
        for id in 0..400 {
            autorizadas.enviar(autorizada(id)).unwrap();
        }
        let (_, descartadas) = procesador.procesar_transacciones(&mut autorizadas, &mut validas);
        decisiones.push(descartadas.iter().map(|t| t.transaccion.id).collect::<Vec<u32>>());
    }
    assert!(!decisiones[0].is_empty());
    assert_eq!(decisiones[0], decisiones[1]);
}

#[test]
fn iniciar_procesadores_ia_da_a_cada_uno_su_propia_semilla() {
    let mut validas: Cola<TransaccionAutorizada> = Cola::new();
    let mut pool = iniciar_procesadores_ia(3, &mut validas, 40);
    assert_eq!(pool.len(), 3);
    assert_eq!(validas.productores(), 3);
    for (i, procesador) in pool.iter().enumerate() {
        assert_eq!(procesador.id(), i as u32);
        assert!(procesador.esta_activo());
    }
    // The worker 2 of a pool seeded with 40 draws as a lone worker seeded
    // with 42 does.
    let mut sola_validas = Cola::new();
    let mut solo = ProcesadorIA::iniciar(2, 42, &mut sola_validas);
    let mut entrada_pool = Cola::new();
    let mut entrada_solo = Cola::new();
    for id in 0..300 {
        entrada_pool.enviar(autorizada(id)).unwrap();
        entrada_solo.enviar(autorizada(id)).unwrap();
    }
    let (_, del_pool) = pool[2].procesar_transacciones(&mut entrada_pool, &mut validas);
    let (_, del_solo) = solo.procesar_transacciones(&mut entrada_solo, &mut sola_validas);
    let ids_pool: Vec<u32> = del_pool.iter().map(|t| t.transaccion.id).collect();
    let ids_solo: Vec<u32> = del_solo.iter().map(|t| t.transaccion.id).collect();
    assert!(!ids_pool.is_empty());
    assert_eq!(ids_pool, ids_solo);
}

#[test]
fn pool_de_cribado_no_pierde_ni_duplica_y_cierra_al_final() {
    let mut autorizadas = Cola::new();
    let mut validas = Cola::new();
    for id in 0..100 {
        autorizadas.enviar(autorizada(id)).unwrap();
    }
    autorizadas.cerrar();
    let mut pool = iniciar_procesadores_ia(3, &mut validas, 5);
    let mut descartadas = Vec::new();
    let mut vueltas = 0;
    while pool.iter().any(|p| p.esta_activo()) {
        assert!(!validas.esta_cerrada());
        let turnos = vec![vueltas % 3, (vueltas + 1) % 3, vueltas % 3, (vueltas * 7) % 3, 5];
        let pasos = ejecutar_turnos(&mut pool, &turnos, &mut autorizadas, &mut validas);
        assert_eq!(pasos.len(), 4);
        for paso in pasos {
            match paso {
                PasoIA::Descarto(transaccion) => descartadas.push(transaccion),
                PasoIA::Tomo { demora } => assert!(demora < TIEMPO_MAXIMO_IA),
                _ => {}
            }
        }
        vueltas += 1;
        assert!(vueltas < 10_000);
    }
    assert!(validas.esta_cerrada());
    assert_eq!(validas.productores(), 0);
    assert_eq!(autorizadas.len(), 0);
    let mut ids: Vec<u32> = descartadas.iter().map(|t| t.transaccion.id).collect();
    while let Recepcion::Elemento(t) = validas.recibir() {
        ids.push(t.transaccion.id);
    }
    ids.sort();
    assert_eq!(ids, (0..100).collect::<Vec<u32>>());
}

#[test]
fn ai_apagada_no_toca_nada() {
    let mut autorizadas = Cola::new();
    let mut validas = Cola::new();
    let mut ai = AI::new(&mut validas, 12);
    autorizadas.enviar(autorizada(1)).unwrap();
    ai.cerrar();
    ai.cerrar();
    assert!(ai.detectar_lavado(&mut autorizadas, &mut validas).is_none());
    assert_eq!(autorizadas.len(), 1);
    assert_eq!(validas.len(), 0);
}

#[test]
fn ai_encendida_criba_lo_que_hay() {
    let mut autorizadas = Cola::new();
    let mut validas = Cola::new();
    let mut ai = AI::new(&mut validas, 12);
    for id in 0..50 {
        autorizadas.enviar(autorizada(id)).unwrap();
    }
    let (parada, descartadas) = ai.detectar_lavado(&mut autorizadas, &mut validas).unwrap();
    assert_eq!(parada, Parada::Bloqueado);
    assert_eq!(autorizadas.len(), 0);
    assert_eq!(validas.len() + descartadas.len(), 50);
}

#[test]
fn pool_de_cribado_con_umbral_total_no_deja_pasar_nada() {
    let mut autorizadas = Cola::new();
    let mut validas = Cola::new();
    for id in 0..40 {
        autorizadas.enviar(autorizada(id)).unwrap();
    }
    autorizadas.cerrar();
    let mut pool = configurar_procesadores_ia(2, &mut validas, 5, PARTES_POR_UNIDAD, 3);
    let mut descartadas = 0;
    while pool.iter().any(|p| p.esta_activo()) {
        for paso in ejecutar_turnos(&mut pool, &vec![0, 1, 1, 0], &mut autorizadas, &mut validas) {
            match paso {
                PasoIA::Descarto(_) => descartadas += 1,
                PasoIA::Valido => panic!("nada debia pasar"),
                PasoIA::Tomo { demora } => assert!(demora < 3),
                _ => {}
            }
        }
    }
    assert_eq!(descartadas, 40);
    assert_eq!(validas.len(), 0);
    assert!(validas.esta_cerrada());
}

#[test]
fn turno_de_cribado_para_un_worker_que_no_existe_no_cambia_nada() {
    let mut autorizadas = Cola::new();
    let mut validas = Cola::new();
    autorizadas.enviar(autorizada(1)).unwrap();
    let mut pool = iniciar_procesadores_ia(2, &mut validas, 5);
    let pasos = ejecutar_turnos(&mut pool, &vec![2, 9], &mut autorizadas, &mut validas);
    assert!(pasos.is_empty());
    assert_eq!(autorizadas.len(), 1);
    let pasos = ejecutar_turnos(&mut pool, &vec![1, 0, 7], &mut autorizadas, &mut validas);
    assert_eq!(pasos.len(), 2);
    assert!(matches!(pasos[0], PasoIA::Tomo { .. }));
    assert!(matches!(pasos[1], PasoIA::Bloqueado));
    assert_eq!(pool[1].retenida().unwrap().transaccion.id, 1);
    assert_eq!(pool[1].umbral(), PROBABILIDAD_DE_INVALIDA);
}
