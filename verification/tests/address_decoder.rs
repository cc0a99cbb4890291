use emu6502::address_decoder::AddressDecoder;
use emu6502::memory::ram::RAM;

#[test]
fn address_decoder_new() {
    let decoder = AddressDecoder::new();
    assert_eq!(decoder.get(0x0000), 0);
}

#[test]
fn add_device() {
    let mut decoder = AddressDecoder::new();
    decoder.add_device(0x2000, 0x3FFF, RAM::<0x2000>::new(None).into_device());
    assert_eq!(decoder.get(0x2000), 0);
}

#[test]
fn address_decoder_get() {
    let mut decoder = AddressDecoder::new();
    decoder.add_device(0x2000, 0x3FFF, RAM::<0x2000>::new(Some([255; 0x2000])).into_device());
    assert_eq!(decoder.get(0x0000), 0);
    assert_eq!(decoder.get(0x2000), 255);
    assert_eq!(decoder.get(0x3FFF), 255);
    assert_eq!(decoder.get(0x4000), 0);
}

#[test]
fn address_decoder_put() {
    let mut decoder = AddressDecoder::new();
    decoder.add_device(0x2000, 0x3FFF, RAM::<0x2000>::new(None).into_device());
    decoder.put(0x0000, 255);
    assert_eq!(decoder.get(0x0000), 0);
    decoder.put(0x2000, 255);
    assert_eq!(decoder.get(0x2000), 255);
    decoder.put(0x3FFF, 255);
    assert_eq!(decoder.get(0x3FFF), 255);
    decoder.put(0x4000, 255);
    assert_eq!(decoder.get(0x4000), 0);
}

#[test]
fn address_decoder_get_hl() {
    let mut decoder = AddressDecoder::new();
    decoder.add_device(0x2000, 0x3FFF, RAM::<0x2000>::new(None).into_device());
    decoder.put(0x0000, 255);
    assert_eq!(decoder.get_hl(0x00, 0x00), 0);
    decoder.put(0x2000, 255);
    assert_eq!(decoder.get_hl(0x20, 0x00), 255);
    decoder.put(0x3FFF, 255);
    assert_eq!(decoder.get_hl(0x3F, 0xFF), 255);
    decoder.put(0x4000, 255);
    assert_eq!(decoder.get_hl(0x40, 0x00), 0);
}

#[test]
fn address_decoder_put_hl() {
    let mut decoder = AddressDecoder::new();
    decoder.add_device(0x2000, 0x3FFF, RAM::<0x2000>::new(None).into_device());
    decoder.put_hl(0x00, 0x00, 255);
    assert_eq!(decoder.get(0x0000), 0);
    decoder.put_hl(0x20, 0x00, 255);
    assert_eq!(decoder.get(0x2000), 255);
    decoder.put_hl(0x3F, 0xFF, 255);
    assert_eq!(decoder.get(0x3FFF), 255);
    decoder.put_hl(0x40, 0x00, 255);
    assert_eq!(decoder.get(0x4000), 0);
}

#[test]
fn first_registered_mapping_wins() {
    let mut decoder = AddressDecoder::new();
    let mut first = [0u8; 0x100];
    first[0x10] = 0xAA;
    decoder.add_device(0x1000, 0x10FF, RAM::new(Some(first)).into_device());
    let mut second = [0u8; 0x200];
    second[0x10] = 0xBB;
    decoder.add_device(0x1000, 0x11FF, RAM::new(Some(second)).into_device());
    // Overlap resolves to the earliest-registered mapping.
    assert_eq!(decoder.get(0x1010), 0xAA);
    // Addresses only the later range covers still reach it, at its own offset.
    assert_eq!(decoder.get(0x1110), 0x00);
    decoder.put(0x1110, 0xCC);
    assert_eq!(decoder.get(0x1110), 0xCC);
}

#[test]
fn split_and_combined_addressing_agree() {
    let mut decoder = AddressDecoder::new();
    let mut cells = [0u8; 0x10000];
    let mut addr: usize = 0;
    while addr < 0x10000 {
        cells[addr] = (addr % 251) as u8;
        addr += 1;
    }
    decoder.add_device(0x0000, 0xFFFF, RAM::new(Some(cells)).into_device());
    for high in 0..=255u8 {
        for low in 0..=255u8 {
            let combined = ((high as u16) << 8) | (low as u16);
            assert_eq!(decoder.get_hl(high, low), decoder.get(combined));
        }
    }
    for high in 0..=255u8 {
        for low in 0..=255u8 {
            let combined = ((high as u16) << 8) | (low as u16);
            decoder.put_hl(high, low, high ^ low);
            assert_eq!(decoder.get(combined), high ^ low);
        }
    }
}
