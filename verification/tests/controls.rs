use mine_clone::controls::{CameraKey, PressedKeys};

const ALL: [CameraKey; 8] = [
    CameraKey::Forward,
    CameraKey::Left,
    CameraKey::Backward,
    CameraKey::Right,
    CameraKey::Up,
    CameraKey::Down,
    CameraKey::RotateRight,
    CameraKey::RotateLeft,
];

#[test]
fn no_key_is_pressed_at_first() {
    let keys = PressedKeys::new();
    for key in ALL {
        assert!(!keys.is_pressed(key));
    }
}

#[test]
fn camera_key_is_handled_and_changes_alone() {
    for key in ALL {
        let mut keys = PressedKeys::new();
        assert!(keys.process_key(Some(key), true));
        for other in ALL {
            assert_eq!(keys.is_pressed(other), other == key);
        }
        assert!(keys.process_key(Some(key), false));
        assert_eq!(keys, PressedKeys::new());
    }
}

#[test]
fn keys_are_held_independently() {
    let mut keys = PressedKeys::new();
    keys.process_key(Some(CameraKey::Forward), true);
    keys.process_key(Some(CameraKey::Left), true);
    keys.process_key(Some(CameraKey::RotateRight), true);
    keys.process_key(Some(CameraKey::Left), false);
    keys.process_key(Some(CameraKey::Forward), true);
    assert!(keys.is_pressed(CameraKey::Forward));
    assert!(!keys.is_pressed(CameraKey::Left));
    assert!(keys.is_pressed(CameraKey::RotateRight));
    assert!(!keys.is_pressed(CameraKey::Backward));
    assert!(!keys.is_pressed(CameraKey::RotateLeft));
}

#[test]
fn other_key_is_not_handled_and_changes_nothing() {
    let mut keys = PressedKeys::new();
    keys.process_key(Some(CameraKey::Up), true);
    let before = keys;
    assert!(!keys.process_key(None, true));
    assert_eq!(keys, before);
    assert!(!keys.process_key(None, false));
    assert_eq!(keys, before);
}
