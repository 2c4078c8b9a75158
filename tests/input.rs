use rust_chess::input::{InputManager, KeyState};

#[test]
fn key_state_edges() {
    let mut k = KeyState { down: false, changed: false };
    k.update(true);
    assert!(k.down() && k.pressed() && !k.released());
    k.update(true);
    assert!(k.down() && !k.pressed() && !k.released());
    k.update(false);
    assert!(!k.down() && !k.pressed() && k.released());
    k.update(false);
    assert!(!k.down() && !k.pressed() && !k.released());
}

#[test]
fn first_sighting_is_not_an_edge() {
    let mut im = InputManager::new();
    assert!(!im.has_key(27));
    im.update(&vec![(27, true), (13, false)], (5, 6));
    assert!(im.has_key(27));
    assert!(im.key_down(27));
    assert!(!im.key_pressed(27));
    assert!(!im.key_down(13));
    assert_eq!(im.mouse_position(), (5, 6));
}

#[test]
fn press_and_release_are_seen_once() {
    let mut im = InputManager::new();
    assert_eq!(im.mouse_position(), (0, 0));
    im.update(&vec![(27, false)], (0, 0));
    im.update(&vec![(27, true)], (1, 1));
    assert!(im.key_pressed(27));
    im.update(&vec![(27, true)], (1, 1));
    assert!(!im.key_pressed(27));
    assert!(im.key_down(27));
    im.update(&vec![(27, false)], (2, 3));
    assert!(im.key_released(27));
    assert_eq!(im.mouse_position(), (2, 3));
}
