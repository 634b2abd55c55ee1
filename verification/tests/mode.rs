use k9_pad::firmware::mode::{KeyboardMode, NUM_LAYERS};

#[test]
fn test_keyboard_mode_default() {
    let mode = KeyboardMode::default();
    assert_eq!(mode, KeyboardMode::new(0));
    assert_eq!(mode.layer_index(), 0);
}

#[test]
fn test_keyboard_mode_all() {
    let all = KeyboardMode::all();
    assert_eq!(all.len(), NUM_LAYERS as usize);
    for (i, mode) in all.iter().enumerate() {
        assert_eq!(mode.layer_index(), i as u8);
    }
}

#[test]
fn test_keyboard_mode_name() {
    for i in 0..NUM_LAYERS {
        let mode = KeyboardMode::new(i);
        let expected = KeyboardMode::all()[i as usize].name();
        assert_eq!(mode.name(), expected);
        assert!(mode.name().starts_with("Layer "));
    }
}

#[test]
fn test_keyboard_mode_layer_index() {
    for i in 0..NUM_LAYERS {
        assert_eq!(KeyboardMode::new(i).layer_index(), i);
    }
}

#[test]
fn test_keyboard_mode_from_layer() {
    for i in 0..NUM_LAYERS {
        assert_eq!(KeyboardMode::from_layer(i), KeyboardMode::new(i));
    }
    assert_eq!(KeyboardMode::from_layer(NUM_LAYERS), KeyboardMode::new(0));
    assert_eq!(KeyboardMode::from_layer(255), KeyboardMode::new(0));
}

#[test]
fn test_keyboard_mode_next() {
    for i in 0..NUM_LAYERS {
        let mode = KeyboardMode::new(i);
        let expected = (i + 1) % NUM_LAYERS;
        assert_eq!(mode.next(), KeyboardMode::new(expected));
    }
}

#[test]
fn test_keyboard_mode_prev() {
    for i in 0..NUM_LAYERS {
        let mode = KeyboardMode::new(i);
        let expected = (i + NUM_LAYERS - 1) % NUM_LAYERS;
        assert_eq!(mode.prev(), KeyboardMode::new(expected));
    }
}

#[test]
fn test_keyboard_mode_next_cycle() {
    let mut mode = KeyboardMode::default();
    for _ in 0..NUM_LAYERS {
        mode = mode.next();
    }
    assert_eq!(mode, KeyboardMode::default());
}

#[test]
fn test_keyboard_mode_prev_cycle() {
    let mut mode = KeyboardMode::default();
    for _ in 0..NUM_LAYERS {
        mode = mode.prev();
    }
    assert_eq!(mode, KeyboardMode::default());
}

#[test]
fn test_keyboard_mode_next_prev_inverse() {
    for mode in KeyboardMode::all().iter() {
        assert_eq!(mode.next().prev(), *mode);
        assert_eq!(mode.prev().next(), *mode);
    }
}

#[test]
fn test_keyboard_mode_equality() {
    assert_eq!(KeyboardMode::new(0), KeyboardMode::new(0));
    if NUM_LAYERS > 1 {
        assert_ne!(KeyboardMode::new(0), KeyboardMode::new(1));
    }
}

#[test]
fn test_keyboard_mode_clone() {
    let mode = KeyboardMode::new(1 % NUM_LAYERS);
    let cloned = mode;
    assert_eq!(mode, cloned);
}

#[test]
fn test_keyboard_mode_new_out_of_range() {
    assert_eq!(KeyboardMode::new(NUM_LAYERS), KeyboardMode::new(0));
    assert_eq!(KeyboardMode::new(NUM_LAYERS + 5), KeyboardMode::new(0));
}
