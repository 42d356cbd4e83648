use pipeline_transacciones::cola::{Cola, Recepcion};
use pipeline_transacciones::provedor_externo::{ProvedorExterno, HASH_FIJO};
use pipeline_transacciones::proveedor_externo::ProveedorExterno;
use pipeline_transacciones::transaccion::HashAutorizacion;
use uuid::{Uuid, Variant};

#[test]
fn proveedor_externo_crea_uuids_al_azar() {
    let (proveedor, mut hashes) = ProveedorExterno::iniciar();
    assert_eq!(hashes.len(), 0);
    assert!(!hashes.esta_cerrada());
    assert_eq!(proveedor.crear_hashes(&mut hashes, 50), 50);
    assert_eq!(hashes.len(), 50);
    assert_eq!(proveedor.crear_hashes(&mut hashes, 0), 0);
    assert_eq!(proveedor.crear_hashes(&mut hashes, 14), 14);
    assert_eq!(hashes.len(), 64);
    let mut vistos: Vec<HashAutorizacion> = Vec::new();
    while let Recepcion::Elemento(hash) = hashes.recibir() {
        let uuid = Uuid::from_u128(hash);
        assert_eq!(uuid.get_version_num(), 4);
        assert_eq!(uuid.get_variant(), Some(Variant::RFC4122));
        assert_eq!((hash >> 76) & 0xf, 4);
        assert_eq!((hash >> 62) & 0x3, 2);
        assert!(!vistos.contains(&hash));
        vistos.push(hash);
    }
    assert_eq!(vistos.len(), 64);
}

#[test]
fn proveedor_externo_se_detiene_cuando_no_quedan_consumidores() {
    let (proveedor, mut hashes) = ProveedorExterno::iniciar();
    assert_eq!(proveedor.crear_hashes(&mut hashes, 3), 3);
    hashes.cerrar();
    assert_eq!(proveedor.crear_hashes(&mut hashes, 3), 0);
    assert_eq!(hashes.len(), 3);
}

#[test]
fn provedor_externo_entrega_el_hash_fijo() {
    let proveedor = ProvedorExterno::new();
    let mut hashes: Cola<HashAutorizacion> = Cola::new();
    assert!(!proveedor.esta_apagado());
    hashes.enviar(1).unwrap();
    assert_eq!(proveedor.crear_hashes(&mut hashes, 4), 4);
    assert_eq!(hashes.len(), 5);
    assert!(matches!(hashes.recibir(), Recepcion::Elemento(1)));
    for _ in 0..4 {
        assert!(matches!(hashes.recibir(), Recepcion::Elemento(HASH_FIJO)));
    }
    assert_eq!(HASH_FIJO, 2);
    assert!(matches!(hashes.recibir(), Recepcion::Vacia));
}

#[test]
fn provedor_externo_apagado_cierra_la_cola() {
    let mut proveedor = ProvedorExterno::new();
    let mut hashes: Cola<HashAutorizacion> = Cola::new();
    assert_eq!(proveedor.crear_hashes(&mut hashes, 2), 2);
    proveedor.cerrar();
    proveedor.cerrar();
    assert!(proveedor.esta_apagado());
    assert!(!hashes.esta_cerrada());
    assert_eq!(proveedor.crear_hashes(&mut hashes, 2), 0);
    assert!(hashes.esta_cerrada());
    assert_eq!(hashes.len(), 2);
}

#[test]
fn provedor_externo_no_envia_a_una_cola_cerrada() {
    let proveedor = ProvedorExterno::new();
    let mut hashes: Cola<HashAutorizacion> = Cola::new();
    hashes.cerrar();
    assert_eq!(proveedor.crear_hashes(&mut hashes, 2), 0);
    assert_eq!(hashes.len(), 0);
}

#[test]
fn proveedor_externo_detenido_cierra_la_cola() {
    let (mut proveedor, mut hashes) = ProveedorExterno::iniciar();
    assert!(!proveedor.esta_apagado());
    assert_eq!(proveedor.crear_hashes(&mut hashes, 2), 2);
    proveedor.cerrar();
    proveedor.cerrar();
    assert!(proveedor.esta_apagado());
    assert!(!hashes.esta_cerrada());
    assert_eq!(proveedor.crear_hashes(&mut hashes, 5), 0);
    assert!(hashes.esta_cerrada());
    assert_eq!(hashes.len(), 2);
}
