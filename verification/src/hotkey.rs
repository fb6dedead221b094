use vstd::prelude::*;

verus! {

use vstd::string::StringExecFns;

// The hotkey registrar's decision logic. Talking to the operating system
// is left outside; the caller attempts registration of the candidates in
// order and reports which attempts succeeded. This module fixes the
// candidate list, the human-readable labels, and the outcome: the first
// success wins, and exhaustion yields the failure notification.

/// A set of modifier keys. Combinations whose only modifier is the
/// system key are deliberately never candidates: releasing that key
/// opens a system menu that steals focus from the popup.
#[derive(Debug, Clone, Copy, PartialEq, Eq, Structural)]
pub struct ModSet {
    pub control: bool,
    pub alt: bool,
    pub shift: bool,
    pub win: bool,
}

/// The key codes the candidate list and labels know about.
#[derive(Debug, Clone, Copy, PartialEq, Eq, Structural)]
pub enum KeyCode {
    Space,
    F1,
    KeyQ,
    Other,
}

/// One global-hotkey candidate: a modifier set and a key code.
#[derive(Debug, Clone, Copy, PartialEq, Eq, Structural)]
pub struct HotkeyCandidate {
    pub mods: Option<ModSet>,
    pub key: KeyCode,
}

/// The outcome of registration: the index and label of the bound
/// candidate, or the message shown when every candidate is taken.
#[derive(Debug)]
pub enum HotkeyStatus {
    Registered(usize, String),
    Failed(String),
}

/// Control together with shift.
pub open spec fn ctrl_shift() -> ModSet {
    ModSet { control: true, alt: false, shift: true, win: false }
}

/// The fixed, ordered candidate list.
pub open spec fn spec_candidates() -> Seq<HotkeyCandidate> {
    seq![
        HotkeyCandidate { mods: Some(ctrl_shift()), key: KeyCode::Space },
        HotkeyCandidate { mods: Some(ctrl_shift()), key: KeyCode::F1 },
        HotkeyCandidate { mods: Some(ctrl_shift()), key: KeyCode::KeyQ },
    ]
}

/// The label of a key code.
pub open spec fn key_label(k: KeyCode) -> Seq<char> {
    match k {
        KeyCode::Space => "Space"@,
        KeyCode::F1 => "F1"@,
        KeyCode::KeyQ => "Q"@,
        KeyCode::Other => "?"@,
    }
}

/// The modifier prefix of a label, each present modifier followed by a
/// joining plus sign.
pub open spec fn mods_label(m: Option<ModSet>) -> Seq<char> {
    match m {
        None => Seq::empty(),
        Some(m) => (if m.control {
            "Ctrl+"@
        } else {
            Seq::empty()
        }) + (if m.alt {
            "Alt+"@
        } else {
            Seq::empty()
        }) + (if m.shift {
            "Shift+"@
        } else {
            Seq::empty()
        }) + (if m.win {
            "Win+"@
        } else {
            Seq::empty()
        }),
    }
}

/// The human-readable label of a candidate.
pub open spec fn spec_format_shortcut(m: Option<ModSet>, k: KeyCode) -> Seq<char> {
    mods_label(m) + key_label(k)
}

/// The notification message when no candidate registers.
pub open spec fn failed_message() -> Seq<char> {
    "All hotkeys are taken; open the launcher from the tray icon"@
}

/// The index of the first successful attempt, if any.
pub open spec fn spec_first_success(s: Seq<bool>) -> Option<int>
    decreases s.len(),
{
    if s.len() == 0 {
        None
    } else if s[0] {
        Some(0)
    } else {
        match spec_first_success(s.drop_first()) {
            Some(i) => Some(i + 1),
            None => None,
        }
    }
}

/// An index that succeeds, with only failures before it, is the first
/// success.
proof fn lemma_first_success_unique(s: Seq<bool>, i: int)
    requires
        0 <= i < s.len(),
        s[i],
        forall|k: int| 0 <= k < i ==> !s[k],
    ensures
        spec_first_success(s) == Some(i),
    decreases s.len(),
{
    if i > 0 {
        lemma_first_success_unique(s.drop_first(), i - 1);
    }
}

/// When every attempt fails, there is no first success.
proof fn lemma_first_success_none(s: Seq<bool>)
    requires
        forall|k: int| 0 <= k < s.len() ==> !s[k],
    ensures
        spec_first_success(s) is None,
    decreases s.len(),
{
    if s.len() > 0 {
        lemma_first_success_none(s.drop_first());
    }
}

/// The fixed, ordered candidate list, as a vector.
pub fn hotkey_candidates() -> (r: Vec<HotkeyCandidate>)
    ensures
        r@ == spec_candidates(),
{
    let mut v: Vec<HotkeyCandidate> = Vec::new();
    v.push(
        HotkeyCandidate {
            mods: Some(ModSet { control: true, alt: false, shift: true, win: false }),
            key: KeyCode::Space,
        },
    );
    v.push(
        HotkeyCandidate {
            mods: Some(ModSet { control: true, alt: false, shift: true, win: false }),
            key: KeyCode::F1,
        },
    );
    v.push(
        HotkeyCandidate {
            mods: Some(ModSet { control: true, alt: false, shift: true, win: false }),
            key: KeyCode::KeyQ,
        },
    );
    proof {
        assert(v@ =~= spec_candidates());
    }
    v
}

/// No candidate binds the system modifier key, whose release would open
/// a system menu and steal focus.
pub proof fn lemma_no_candidate_uses_system_modifier()
    ensures
        forall|i: int|
            0 <= i < spec_candidates().len() ==> !(#[trigger] spec_candidates()[i]).mods.unwrap().win,
{
    assert(spec_candidates()[0].mods == Some(ctrl_shift()));
    assert(spec_candidates()[1].mods == Some(ctrl_shift()));
    assert(spec_candidates()[2].mods == Some(ctrl_shift()));
}

/// Formats the human-readable label of a hotkey combination.
pub fn format_shortcut(mods: Option<ModSet>, key: KeyCode) -> (r: String)
    ensures
        r@ == spec_format_shortcut(mods, key),
{
    let mut s = String::new();
    match mods {
        None => {},
        Some(m) => {
            if m.control {
                s.append("Ctrl+");
            }
            if m.alt {
                s.append("Alt+");
            }
            if m.shift {
                s.append("Shift+");
            }
            if m.win {
                s.append("Win+");
            }
        },
    }
    match key {
        KeyCode::Space => s.append("Space"),
        KeyCode::F1 => s.append("F1"),
        KeyCode::KeyQ => s.append("Q"),
        KeyCode::Other => s.append("?"),
    }
    proof {
        assert(s@ =~= spec_format_shortcut(mods, key));
    }
    s
}

/// Try-in-order combinator: the index of the first successful attempt,
/// or nothing when every attempt failed.
pub fn first_success(results: &Vec<bool>) -> (r: Option<usize>)
    ensures
        r is Some <==> spec_first_success(results@) is Some,
        r matches Some(u) ==> spec_first_success(results@) == Some(u as int) && u
            < results@.len() && results@[u as int],
{
    let mut i: usize = 0;
    while i < results.len()
        invariant
            i <= results.len(),
            forall|k: int| 0 <= k < i ==> !results@[k],
        decreases results.len() - i,
    {
        if results[i] {
            proof {
                lemma_first_success_unique(results@, i as int);
            }
            return Some(i);
        }
        i = i + 1;
    }
    proof {
        lemma_first_success_none(results@);
    }
    None
}

/// The outcome of attempting the candidates in order, given which
/// attempts would succeed: the first success is registered under its
/// label; with none, the failure notification is produced.
pub fn register_outcome(results: &Vec<bool>) -> (r: HotkeyStatus)
    requires
        results@.len() == spec_candidates().len(),
    ensures
        spec_first_success(results@) is None ==> (r matches HotkeyStatus::Failed(m) && m@
            == failed_message()),
        spec_first_success(results@) matches Some(i) ==> (r matches HotkeyStatus::Registered(
            u,
            label,
        ) && u as int == i && label@ == spec_format_shortcut(
            spec_candidates()[i].mods,
            spec_candidates()[i].key,
        )),
{
    let candidates = hotkey_candidates();
    match first_success(results) {
        Some(i) => {
            let c = candidates[i];
            let label = format_shortcut(c.mods, c.key);
            HotkeyStatus::Registered(i, label)
        },
        None => HotkeyStatus::Failed(
            String::from_str("All hotkeys are taken; open the launcher from the tray icon"),
        ),
    }
}

} // verus!
