use opendeck::prontokey::ProntoKeyDevice;
use opendeck::registry::{DeviceInfo, DeviceRegistry};

#[test]
fn prontokey_registers_under_its_tagged_address() {
    let dev = ProntoKeyDevice::new("aa:bb".to_string());
    let info = DeviceInfo::from_prontokey(&dev);
    assert_eq!(info.id, "pk-aa:bb");
    assert_eq!(info.name, "ProntoKey");
    assert_eq!((info.rows, info.columns, info.dials, info.kind), (3, 3, 2, 7));
}

#[test]
fn reconnection_is_suppressed_as_a_duplicate() {
    let mut reg = DeviceRegistry::new();
    let dev = ProntoKeyDevice::new("aa:bb".to_string());
    assert!(reg.register(DeviceInfo::from_prontokey(&dev)));
    assert_eq!(reg.len(), 1);
    assert!(!reg.register(DeviceInfo::from_prontokey(&dev)));
    assert_eq!(reg.len(), 1);
}

#[test]
fn lookup_resolves_capabilities_by_id() {
    let mut reg = DeviceRegistry::new();
    let dev = ProntoKeyDevice::new("aa:bb".to_string());
    reg.register(DeviceInfo::from_prontokey(&dev));
    let info = reg.lookup(&"pk-aa:bb".to_string()).unwrap();
    assert_eq!(info.columns, 3);
    assert!(reg.lookup(&"pk-cc:dd".to_string()).is_none());
}
