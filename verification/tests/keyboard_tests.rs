use zx_wasm::keyboard::{map_key, Keyboard, ZxKey};

#[test]
fn idle_keyboard_reads_all_released() {
    let kb = Keyboard::new();
    assert_eq!(kb.read(0x00), 0x1F);
    assert_eq!(kb.read(0xFE), 0x1F);
}

#[test]
fn pressed_keys_read_low_in_selected_rows() {
    let mut kb = Keyboard::new();
    kb.press(ZxKey::A);
    kb.press(ZxKey::G);
    assert_eq!(kb.read(0xFD), 0x1F & !0x01 & !0x10);
    assert_eq!(kb.read(0xFE), 0x1F);
    kb.press(ZxKey::Space);
    assert_eq!(kb.read(0x7F), 0x1E);
    assert_eq!(kb.read(0x7D), 0x0E);
    // no row selected
    assert_eq!(kb.read(0xFF), 0x1F);
}

#[test]
fn release_undoes_press() {
    let mut kb = Keyboard::new();
    kb.press(ZxKey::K5);
    assert_eq!(kb.read(0xF7), 0x0F);
    kb.press(ZxKey::K5);
    assert_eq!(kb.read(0xF7), 0x0F);
    kb.release(ZxKey::K5);
    assert_eq!(kb.read(0xF7), 0x1F);
    kb.release(ZxKey::K5);
    assert_eq!(kb.read(0x00), 0x1F);
}

#[test]
fn every_key_has_its_own_position() {
    let keys = [
        ZxKey::CapsShift, ZxKey::Z, ZxKey::X, ZxKey::C, ZxKey::V, ZxKey::A, ZxKey::S, ZxKey::D, ZxKey::F, ZxKey::G,
        ZxKey::Q, ZxKey::W, ZxKey::E, ZxKey::R, ZxKey::T, ZxKey::K1, ZxKey::K2, ZxKey::K3, ZxKey::K4, ZxKey::K5,
        ZxKey::K0, ZxKey::K9, ZxKey::K8, ZxKey::K7, ZxKey::K6, ZxKey::P, ZxKey::O, ZxKey::I, ZxKey::U, ZxKey::Y,
        ZxKey::Enter, ZxKey::L, ZxKey::K, ZxKey::J, ZxKey::H, ZxKey::Space, ZxKey::SymShift, ZxKey::M, ZxKey::N,
        ZxKey::B,
    ];
    for (i, k) in keys.iter().enumerate() {
        let mut kb = Keyboard::new();
        kb.press(*k);
        let row = i / 5;
        let bit = i % 5;
        let port_hi = !(1u8 << row);
        assert_eq!(kb.read(port_hi), 0x1F & !(1u8 << bit), "key {:?}", k);
        assert_eq!(kb.read(!port_hi), 0x1F);
    }
}

#[test]
fn map_key_maps_codes() {
    assert_eq!(map_key("ShiftLeft"), Some(ZxKey::CapsShift));
    assert_eq!(map_key("ShiftRight"), Some(ZxKey::CapsShift));
    assert_eq!(map_key("CapsLock"), Some(ZxKey::CapsShift));
    assert_eq!(map_key("ControlLeft"), Some(ZxKey::SymShift));
    assert_eq!(map_key("ControlRight"), Some(ZxKey::SymShift));
    assert_eq!(map_key("Space"), Some(ZxKey::Space));
    assert_eq!(map_key("Enter"), Some(ZxKey::Enter));
    assert_eq!(map_key("KeyA"), Some(ZxKey::A));
    assert_eq!(map_key("KeyK"), Some(ZxKey::K));
    assert_eq!(map_key("KeyZ"), Some(ZxKey::Z));
    assert_eq!(map_key("Digit0"), Some(ZxKey::K0));
    assert_eq!(map_key("Digit7"), Some(ZxKey::K7));
    assert_eq!(map_key("Digit9"), Some(ZxKey::K9));
}

#[test]
fn map_key_rejects_other_codes() {
    assert_eq!(map_key("ArrowLeft"), None);
    assert_eq!(map_key("ArrowUp"), None);
    assert_eq!(map_key("Keya"), None);
    assert_eq!(map_key("Key"), None);
    assert_eq!(map_key("KeyAB"), None);
    assert_eq!(map_key("Digit"), None);
    assert_eq!(map_key("DigitX"), None);
    assert_eq!(map_key("Shift"), None);
    assert_eq!(map_key(""), None);
    assert_eq!(map_key("a"), None);
}

#[test]
fn combined_rows_read_as_the_and_of_each_row() {
    let mut kb = Keyboard::new();
    kb.press(ZxKey::Z);
    kb.press(ZxKey::S);
    kb.press(ZxKey::B);
    for p in [0xFEu8, 0xFD, 0x7F, 0xF0, 0x0F, 0xAA] {
        for q in [0xFEu8, 0xFD, 0x7F, 0xFF, 0x00] {
            assert_eq!(kb.read(p & q), kb.read(p) & kb.read(q));
            assert!(kb.read(p) <= 0x1F);
        }
    }
    assert_eq!(kb.read(0xFE & 0xFD), 0x1F & !0x02);
}

#[test]
fn every_key_is_reached_by_some_code() {
    let mut codes: Vec<String> = vec!["ShiftLeft".into(), "ControlLeft".into(), "Space".into(), "Enter".into()];
    for c in b'A'..=b'Z' {
        codes.push(format!("Key{}", c as char));
    }
    for d in b'0'..=b'9' {
        codes.push(format!("Digit{}", d as char));
    }
    let mut keys: Vec<ZxKey> = Vec::new();
    for code in &codes {
        let k = map_key(code).expect("mapped");
        assert!(!keys.contains(&k));
        keys.push(k);
    }
    assert_eq!(keys.len(), 40);
    assert_eq!(map_key("Keya"), None);
    assert_eq!(map_key("Key["), None);
    assert_eq!(map_key("Digit:"), None);
}
