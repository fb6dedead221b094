use vstd::prelude::*;

verus! {

// The visibility controller: a state machine over the popup surface.
// The surrounding surface performs the returned effects (hide, center,
// show, focus, signal a search reset); this module decides them.

/// The two states of the popup surface.
#[derive(Debug, Clone, Copy, PartialEq, Eq, Structural)]
pub enum Visibility {
    Hidden,
    Shown,
}

/// The requests that drive the controller: a toggle (hotkey press or a
/// tray click), an explicit show or hide, and a quit request.
#[derive(Debug, Clone, Copy, PartialEq, Eq, Structural)]
pub enum VisRequest {
    Toggle,
    Show,
    Hide,
    Quit,
}

/// What the surface must do after a step, in order: reposition to the
/// centering policy, show, take focus, signal a search reset, hide, or
/// terminate the process.
#[derive(Debug, Clone, Copy, PartialEq, Eq, Structural)]
pub struct VisEffects {
    pub center: bool,
    pub show: bool,
    pub focus: bool,
    pub reset_search: bool,
    pub hide: bool,
    pub quit: bool,
}

/// The transitions a registered hotkey reports: the combination was
/// pressed, or it was released.
#[derive(Debug, Clone, Copy, PartialEq, Eq, Structural)]
pub enum HotkeyTransition {
    Pressed,
    Released,
}

/// No effect at all.
pub open spec fn no_effects() -> VisEffects {
    VisEffects {
        center: false,
        show: false,
        focus: false,
        reset_search: false,
        hide: false,
        quit: false,
    }
}

/// The effects of becoming shown: recenter, show, focus, and signal the
/// presentation layer to clear any stale query text.
pub open spec fn show_effects() -> VisEffects {
    VisEffects {
        center: true,
        show: true,
        focus: true,
        reset_search: true,
        hide: false,
        quit: false,
    }
}

/// The effects of becoming hidden.
pub open spec fn hide_effects() -> VisEffects {
    VisEffects {
        center: false,
        show: false,
        focus: false,
        reset_search: false,
        hide: true,
        quit: false,
    }
}

/// The effect of a quit request: terminate; nothing else happens.
pub open spec fn quit_effects() -> VisEffects {
    VisEffects {
        center: false,
        show: false,
        focus: false,
        reset_search: false,
        hide: false,
        quit: true,
    }
}

/// The state the controller starts in: the surface exists but is hidden,
/// so it never flashes at launch.
pub open spec fn spec_initial() -> Visibility {
    Visibility::Hidden
}

/// One step of the controller: a toggle hides a shown surface and shows
/// a hidden one; a show request shows regardless of state; a hide
/// request hides unconditionally; a quit request only terminates.
pub open spec fn spec_step(s: Visibility, r: VisRequest) -> (Visibility, VisEffects) {
    match r {
        VisRequest::Toggle => if s == Visibility::Shown {
            (Visibility::Hidden, hide_effects())
        } else {
            (Visibility::Shown, show_effects())
        },
        VisRequest::Show => (Visibility::Shown, show_effects()),
        VisRequest::Hide => (Visibility::Hidden, hide_effects()),
        VisRequest::Quit => (s, quit_effects()),
    }
}

/// The request a hotkey transition maps to: only the pressed transition
/// acts; the released one is dropped, else one keystroke would toggle
/// twice.
pub open spec fn spec_transition_request(t: HotkeyTransition) -> Option<VisRequest> {
    match t {
        HotkeyTransition::Pressed => Some(VisRequest::Toggle),
        HotkeyTransition::Released => None,
    }
}

/// The controller's initial state.
pub fn initial_visibility() -> (r: Visibility)
    ensures
        r == spec_initial(),
{
    Visibility::Hidden
}

/// Performs one step of the controller.
pub fn vis_step(s: Visibility, r: VisRequest) -> (out: (Visibility, VisEffects))
    ensures
        out == spec_step(s, r),
{
    match r {
        VisRequest::Toggle => {
            if s == Visibility::Shown {
                (
                    Visibility::Hidden,
                    VisEffects {
                        center: false,
                        show: false,
                        focus: false,
                        reset_search: false,
                        hide: true,
                        quit: false,
                    },
                )
            } else {
                (
                    Visibility::Shown,
                    VisEffects {
                        center: true,
                        show: true,
                        focus: true,
                        reset_search: true,
                        hide: false,
                        quit: false,
                    },
                )
            }
        },
        VisRequest::Show => (
            Visibility::Shown,
            VisEffects {
                center: true,
                show: true,
                focus: true,
                reset_search: true,
                hide: false,
                quit: false,
            },
        ),
        VisRequest::Hide => (
            Visibility::Hidden,
            VisEffects {
                center: false,
                show: false,
                focus: false,
                reset_search: false,
                hide: true,
                quit: false,
            },
        ),
        VisRequest::Quit => (
            s,
            VisEffects {
                center: false,
                show: false,
                focus: false,
                reset_search: false,
                hide: false,
                quit: true,
            },
        ),
    }
}

/// Maps a hotkey transition to its request, if any.
pub fn transition_request(t: HotkeyTransition) -> (r: Option<VisRequest>)
    ensures
        r == spec_transition_request(t),
{
    match t {
        HotkeyTransition::Pressed => Some(VisRequest::Toggle),
        HotkeyTransition::Released => None,
    }
}

/// From startup the controller is hidden; one toggle shows the surface
/// and signals exactly one search reset, and an immediate second toggle
/// hides it again and signals none.
pub proof fn lemma_toggle_round_trip()
    ensures
        ({
            let (s1, e1) = spec_step(spec_initial(), VisRequest::Toggle);
            let (s2, e2) = spec_step(s1, VisRequest::Toggle);
            &&& s1 == Visibility::Shown
            &&& e1 == show_effects()
            &&& e1.reset_search
            &&& s2 == Visibility::Hidden
            &&& e2 == hide_effects()
            &&& !e2.reset_search
        }),
{
}

/// A released transition produces no request at all, so no visibility
/// transition; only a press toggles.
pub proof fn lemma_release_is_inert()
    ensures
        spec_transition_request(HotkeyTransition::Released) is None,
        spec_transition_request(HotkeyTransition::Pressed) == Some(VisRequest::Toggle),
{
}

} // verus!
