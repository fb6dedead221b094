use quicklaunch::visibility::{
    initial_visibility, transition_request, vis_step, HotkeyTransition, VisRequest, Visibility,
};

#[test]
fn starts_hidden_and_toggle_cycles() {
    let s0 = initial_visibility();
    assert_eq!(s0, Visibility::Hidden);

    let (s1, e1) = vis_step(s0, VisRequest::Toggle);
    assert_eq!(s1, Visibility::Shown);
    assert!(e1.center);
    assert!(e1.show);
    assert!(e1.focus);
    assert!(e1.reset_search);
    assert!(!e1.hide);

    let (s2, e2) = vis_step(s1, VisRequest::Toggle);
    assert_eq!(s2, Visibility::Hidden);
    assert!(e2.hide);
    assert!(!e2.reset_search);
    assert!(!e2.show);
}

#[test]
fn show_request_is_idempotent() {
    let (s1, e1) = vis_step(Visibility::Shown, VisRequest::Show);
    assert_eq!(s1, Visibility::Shown);
    assert!(e1.show && e1.center && e1.focus && e1.reset_search);

    let (s2, e2) = vis_step(Visibility::Hidden, VisRequest::Show);
    assert_eq!(s2, Visibility::Shown);
    assert!(e2.show && e2.reset_search);
}

#[test]
fn hide_request_is_unconditional() {
    let (s1, e1) = vis_step(Visibility::Hidden, VisRequest::Hide);
    assert_eq!(s1, Visibility::Hidden);
    assert!(e1.hide);
    let (s2, e2) = vis_step(Visibility::Shown, VisRequest::Hide);
    assert_eq!(s2, Visibility::Hidden);
    assert!(e2.hide && !e2.reset_search);
}

#[test]
fn quit_only_terminates() {
    let (s, e) = vis_step(Visibility::Shown, VisRequest::Quit);
    assert_eq!(s, Visibility::Shown);
    assert!(e.quit);
    assert!(!e.show && !e.hide && !e.center && !e.focus && !e.reset_search);
}

#[test]
fn released_transition_is_ignored() {
    assert_eq!(transition_request(HotkeyTransition::Released), None);
    assert_eq!(transition_request(HotkeyTransition::Pressed), Some(VisRequest::Toggle));
}

#[test]
fn released_produces_no_visibility_transition() {
    let mut state = initial_visibility();
    if let Some(req) = transition_request(HotkeyTransition::Released) {
        let (next, _) = vis_step(state, req);
        state = next;
    }
    assert_eq!(state, Visibility::Hidden);
    if let Some(req) = transition_request(HotkeyTransition::Pressed) {
        let (next, _) = vis_step(state, req);
        state = next;
    }
    assert_eq!(state, Visibility::Shown);
}
