use quicklaunch::window::{center_position, launch_args, PosStore};

#[test]
fn centering_policy_biases_upward() {
    let p = center_position(1920, 1080, 600, 400);
    assert_eq!(p.x, 660);
    assert_eq!(p.y, 260);
}

#[test]
fn centering_truncates_toward_zero_when_window_is_wider() {
    let p = center_position(800, 600, 1001, 100);
    assert_eq!(p.x, -100);
    assert_eq!(p.y, 600 / 2 - 100 / 2 - 80);
}

#[test]
fn restore_without_save_falls_back_to_centering() {
    let store = PosStore::new();
    let p = store.restore_window_pos(1920, 1080, 600, 400);
    assert_eq!(p.x, 660);
    assert_eq!(p.y, 260);
}

#[test]
fn restore_after_save_returns_saved_position() {
    let mut store = PosStore::new();
    store.save_window_pos(100, 200);
    let p = store.restore_window_pos(1920, 1080, 600, 400);
    assert_eq!(p.x, 100);
    assert_eq!(p.y, 200);
}

#[test]
fn later_save_overwrites_earlier() {
    let mut store = PosStore::new();
    store.save_window_pos(1, 2);
    store.save_window_pos(30, 40);
    let p = store.restore_window_pos(1920, 1080, 600, 400);
    assert_eq!(p.x, 30);
    assert_eq!(p.y, 40);
}

#[test]
fn launch_arguments_carry_the_target() {
    let args = launch_args(&"C:\\Menu\\App.lnk".to_string());
    let strs: Vec<&str> = args.iter().map(|s| s.as_str()).collect();
    assert_eq!(strs, vec!["/C", "start", "", "C:\\Menu\\App.lnk"]);
}
