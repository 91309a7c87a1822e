//! The built-in binding table handed to the core at startup.

use vstd::prelude::*;
use crate::keybind::{FallibleMutAction, Keybind, KeybindFunction, MutAction};
use crate::wm::{WindowManager, WmState};

verus! {

/// The shift modifier bit of a key state field.
pub const MOD_SHIFT: u16 = 1;

/// The fourth modifier bit: the super key on common layouts.
pub const MOD_4: u16 = 64;

/// The built-in binding table: quit, cycle focus forward and backward,
/// and kill the focused client, all under the fourth modifier.
pub open spec fn default_keybinds() -> Seq<Keybind> {
    seq![
        Keybind(24, MOD_4, KeybindFunction::FnVoidMut(MutAction::Quit)),
        Keybind(44, MOD_4, KeybindFunction::FnVoidMut(MutAction::FocusNext)),
        Keybind(45, MOD_4, KeybindFunction::FnVoidMut(MutAction::FocusPrev)),
        Keybind(
            24,
            MOD_4 | MOD_SHIFT,
            KeybindFunction::FnResultMut(FallibleMutAction::KillFocused),
        ),
    ]
}

/// Installs the built-in binding table on the core, replacing whatever
/// table it held.
pub fn bind_keys(wm: &mut WindowManager)
    ensures
        final(wm)@ == (WmState { keybinds: default_keybinds(), ..old(wm)@ }),
{
    let mut keybinds: Vec<Keybind> = Vec::new();
    keybinds.push(Keybind(24, MOD_4, KeybindFunction::FnVoidMut(MutAction::Quit)));
    keybinds.push(Keybind(44, MOD_4, KeybindFunction::FnVoidMut(MutAction::FocusNext)));
    keybinds.push(Keybind(45, MOD_4, KeybindFunction::FnVoidMut(MutAction::FocusPrev)));
    keybinds.push(
        Keybind(
            24,
            MOD_4 | MOD_SHIFT,
            KeybindFunction::FnResultMut(FallibleMutAction::KillFocused),
        ),
    );
    proof {
        assert(keybinds@ =~= default_keybinds());
    }
    wm.set_keybinds(keybinds);
}

} // verus!
