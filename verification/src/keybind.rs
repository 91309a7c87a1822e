//! The keybind table: bindings from a key code and modifier mask to an
//! action, and the order-sensitive matching rule applied on key press.

use vstd::prelude::*;

verus! {

/// A key code as the server reports it in key-press events.
pub type Keycode = u8;

/// Actions that need exclusive access to the core state and cannot fail.
#[derive(Clone, Copy, Debug, PartialEq, Eq)]
pub enum MutAction {
    FocusNext,
    FocusPrev,
    Quit,
}

/// Actions that need exclusive access to the core state and may fail.
#[derive(Clone, Copy, Debug, PartialEq, Eq)]
pub enum FallibleMutAction {
    KillFocused,
}

/// An action bound to a key, tagged by its signature class: whether it
/// can fail and need to report an error. Every built-in action mutates
/// the core state; read-only signature classes would join this sum type
/// as further variants.
#[derive(Clone, Copy, Debug, PartialEq, Eq)]
pub enum KeybindFunction {
    FnVoidMut(MutAction),
    FnResultMut(FallibleMutAction),
}

/// A binding of a key code and a modifier mask to an action.
#[derive(Clone, Copy, Debug, PartialEq, Eq)]
pub struct Keybind(pub Keycode, pub u16, pub KeybindFunction);

/// Whether a key press with the given key code and state field matches a
/// keybind. Only the low seven bits of the state are compared, stripping
/// the pointer-button bits that share the field with the modifier bits.
pub open spec fn keybind_matches(kb: Keybind, detail: Keycode, state: u16) -> bool {
    kb.0 == detail && (state & 0x7f) == kb.1
}

/// The index of the first keybind in table order that a key press
/// matches, if any. The first match wins: later entries with the same key
/// code and modifier mask never fire.
pub open spec fn first_match_index(binds: Seq<Keybind>, detail: Keycode, state: u16) -> Option<int>
    decreases binds.len(),
{
    if binds.len() == 0 {
        None
    } else if keybind_matches(binds[0], detail, state) {
        Some(0int)
    } else {
        match first_match_index(binds.drop_first(), detail, state) {
            Some(i) => Some(i + 1),
            None => None,
        }
    }
}

/// What `first_match_index` returns: a matching entry before which no
/// entry matches, or nothing when no entry matches.
pub proof fn lemma_first_match_index_spec(binds: Seq<Keybind>, detail: Keycode, state: u16)
    ensures
        match first_match_index(binds, detail, state) {
            Some(i) => 0 <= i < binds.len() && keybind_matches(binds[i], detail, state)
                && (forall|j: int| 0 <= j < i ==> !keybind_matches(binds[j], detail, state)),
            None => forall|j: int| 0 <= j < binds.len()
                ==> !keybind_matches(binds[j], detail, state),
        },
    decreases binds.len(),
{
    if binds.len() == 0 {
    } else if keybind_matches(binds[0], detail, state) {
    } else {
        lemma_first_match_index_spec(binds.drop_first(), detail, state);
        assert(forall|j: int| 1 <= j < binds.len() ==> binds[j] == binds.drop_first()[j - 1]);
    }
}

/// The index that matches with no match before it is the first match.
pub proof fn lemma_first_match_index_unique(
    binds: Seq<Keybind>,
    detail: Keycode,
    state: u16,
    i: int,
)
    requires
        0 <= i < binds.len(),
        keybind_matches(binds[i], detail, state),
        forall|j: int| 0 <= j < i ==> !keybind_matches(binds[j], detail, state),
    ensures
        first_match_index(binds, detail, state) == Some(i),
{
    lemma_first_match_index_spec(binds, detail, state);
    match first_match_index(binds, detail, state) {
        Some(k) => {
            if k < i {
                assert(!keybind_matches(binds[k], detail, state));
            } else if i < k {
                assert(!keybind_matches(binds[i], detail, state));
            }
        },
        None => {
            assert(!keybind_matches(binds[i], detail, state));
        },
    }
}

/// Key-press matching is order-sensitive: of two keybinds with identical
/// key code and modifier mask, only the earlier one can ever fire,
/// whatever actions the two carry.
pub proof fn lemma_match_order_sensitive(
    binds: Seq<Keybind>,
    i: int,
    j: int,
    detail: Keycode,
    state: u16,
)
    requires
        0 <= i < j < binds.len(),
        binds[i].0 == binds[j].0,
        binds[i].1 == binds[j].1,
    ensures
        first_match_index(binds, detail, state) != Some(j),
{
    lemma_first_match_index_spec(binds, detail, state);
    if first_match_index(binds, detail, state) == Some(j) {
        assert(keybind_matches(binds[j], detail, state));
        assert(!keybind_matches(binds[i], detail, state));
    }
}

} // verus!
