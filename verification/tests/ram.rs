use emu6502::memory::ram::RAM;

#[test]
fn ram_new() {
    let ram = RAM::<1>::new(None);
    assert_eq!(ram.get(0), 0);
}

#[test]
fn ram_new_allocated() {
    let ram = RAM::new(Some([255; 0x10000]));
    assert_eq!(ram.get(0), 255);
}

#[test]
fn ram_get() {
    let ram = RAM::new(Some([255; 0x10000]));
    assert_eq!(ram.get(0), 255);
    assert_eq!(ram.get(0xFFFF), 255);
}

#[test]
fn ram_put() {
    let mut ram = RAM::<0x10000>::new(None);
    ram.put(0, 255);
    assert_eq!(ram.get(0), 255);
    ram.put(0xFFFF, 255);
    assert_eq!(ram.get(0xFFFF), 255);
}

#[test]
fn ram_get_hl() {
    let mut ram = RAM::<0x10000>::new(None);
    ram.put(0x0000, 255);
    assert_eq!(ram.get_hl(0x00, 0x00), 255);
    ram.put(0x00FF, 255);
    assert_eq!(ram.get_hl(0x00, 0xFF), 255);
    ram.put(0x0100, 255);
    assert_eq!(ram.get_hl(0x01, 0x00), 255);
    ram.put(0xFFFF, 255);
    assert_eq!(ram.get_hl(0xFF, 0xFF), 255);
}

#[test]
fn ram_put_hl() {
    let mut ram = RAM::<0x10000>::new(None);
    ram.put_hl(0x00, 0x00, 255);
    assert_eq!(ram.get(0x00), 255);
    ram.put_hl(0x00, 0xFF, 255);
    assert_eq!(ram.get(0xFF), 255);
    ram.put_hl(0x01, 0x00, 255);
    assert_eq!(ram.get(0x0100), 255);
    ram.put_hl(0xFF, 0xFF, 255);
    assert_eq!(ram.get(0xFFFF), 255);
}

#[test]
fn ram_set_from_bytes_truncates() {
    let mut bytes = vec![0u8; 0x20];
    for (i, b) in bytes.iter_mut().enumerate() {
        *b = i as u8;
    }
    let mut ram = RAM::<0x10>::new(None);
    ram.set_from_bytes(&bytes);
    assert_eq!(ram.get(0x0), 0);
    assert_eq!(ram.get(0xF), 0xF);
}

#[test]
fn ram_new_from_bytes() {
    let bytes = vec![7u8; 0x10];
    let ram = RAM::<0x10>::new_from_bytes(&bytes);
    assert_eq!(ram.get(0x0), 7);
    assert_eq!(ram.get(0xF), 7);
}
