//! The window manager core: the client registry with its focus ring,
//! the running flag, the keybind table, and the decision logic of the
//! event handlers. The core owns no connection; it consumes plain event
//! values and produces the commands the connection layer must issue.

use vstd::prelude::*;
use std::collections::VecDeque;
use crate::client::Client;
use crate::events::{
    Command, ConfigureRequest, Event, Geometry, MapState, MappingKind, RegisterError,
    RegisterReply, ScanItem, Window, WindowAttributes, WmError,
};
use crate::keybind::{
    first_match_index, keybind_matches, lemma_first_match_index_spec,
    lemma_first_match_index_unique, FallibleMutAction, Keybind, KeybindFunction, Keycode,
    MutAction,
};

verus! {

/// No two clients in the registry share a window identifier.
pub open spec fn unique_windows(s: Seq<Client>) -> bool {
    forall|i: int, j: int| 0 <= i < j < s.len() ==> s[i].window != s[j].window
}

/// Some client in the registry has this window identifier.
pub open spec fn contains_window(s: Seq<Client>, w: Window) -> bool {
    exists|i: int| 0 <= i < s.len() && s[i].window == w
}

/// The registry rotated front-to-back: the front client moves to the
/// back. Registries of fewer than two clients are left as they are.
pub open spec fn rotated_next(s: Seq<Client>) -> Seq<Client> {
    if s.len() < 2 {
        s
    } else {
        s.drop_first().push(s.first())
    }
}

/// The registry rotated back-to-front: the back client moves to the
/// front. Registries of fewer than two clients are left as they are.
pub open spec fn rotated_prev(s: Seq<Client>) -> Seq<Client> {
    if s.len() < 2 {
        s
    } else {
        seq![s.last()] + s.drop_last()
    }
}

/// The registry with every client of the given window identifier
/// removed, order otherwise kept.
pub open spec fn without_window(s: Seq<Client>, w: Window) -> Seq<Client>
    decreases s.len(),
{
    if s.len() == 0 {
        Seq::empty()
    } else if s.last().window == w {
        without_window(s.drop_last(), w)
    } else {
        without_window(s.drop_last(), w).push(s.last())
    }
}

/// The index of the first client with the given window identifier, if
/// one is managed.
pub open spec fn first_window_index(s: Seq<Client>, w: Window) -> Option<int>
    decreases s.len(),
{
    if s.len() == 0 {
        None
    } else if s.first().window == w {
        Some(0int)
    } else {
        match first_window_index(s.drop_first(), w) {
            Some(i) => Some(i + 1),
            None => None,
        }
    }
}

/// The registry with the first client of the given window identifier
/// removed; unchanged when none is managed.
pub open spec fn removed_first(s: Seq<Client>, w: Window) -> Seq<Client> {
    match first_window_index(s, w) {
        Some(i) => s.remove(i),
        None => s,
    }
}

/// Whether the startup scan adopts a child window: both queries must
/// have succeeded, override-redirect must be unset, and the window must
/// not be unmapped.
pub open spec fn scan_adopts(item: ScanItem) -> bool {
    match (item.attr, item.geom) {
        (Some(a), Some(_)) => !a.override_redirect && a.map_state != MapState::Unmapped,
        _ => false,
    }
}

/// The client record the scan creates for an adopted child window.
pub open spec fn adopted_client(item: ScanItem) -> Client {
    match item.geom {
        Some(g) => Client {
            window: item.window,
            x: g.x,
            y: g.y,
            w: g.width,
            h: g.height,
            border_width: g.border_width,
        },
        None => Client { window: item.window, x: 0, y: 0, w: 0, h: 0, border_width: 0 },
    }
}

/// The registry after scanning the given children in order: each
/// adopted child is pushed to the front, so later children end up
/// closer to the front.
pub open spec fn scanned(s: Seq<Client>, items: Seq<ScanItem>) -> Seq<Client>
    decreases items.len(),
{
    if items.len() == 0 {
        s
    } else {
        let prior = scanned(s, items.drop_last());
        if scan_adopts(items.last()) {
            seq![adopted_client(items.last())] + prior
        } else {
            prior
        }
    }
}

/// The scanned children carry pairwise distinct window identifiers,
/// none of them already managed: what one tree query of the server
/// yields over a fresh registry.
pub open spec fn scan_items_fresh(s: Seq<Client>, items: Seq<ScanItem>) -> bool {
    &&& forall|i: int, j: int| 0 <= i < j < items.len()
        ==> items[i].window != items[j].window
    &&& forall|i: int| 0 <= i < items.len() ==> !contains_window(s, items[i].window)
}

/// Whether queried attributes mark a window override-redirect: such a
/// window bypasses window-manager control and is never managed.
pub open spec fn override_redirect_set(attr: Option<WindowAttributes>) -> bool {
    match attr {
        Some(a) => a.override_redirect,
        None => false,
    }
}

/// The abstract state of the core: what the contracts speak of.
pub struct WmState {
    pub root: Window,
    pub running: bool,
    pub windows: Seq<Client>,
    pub keybinds: Seq<Keybind>,
}

impl WmState {
    /// The registry invariant: at most one client per window identifier.
    pub open spec fn wf(self) -> bool {
        unique_windows(self.windows)
    }
}

/// The grabs that keybind installation issues, in order: release every
/// held key grab, grab each bound key under its exact modifier mask,
/// then grab any key under any modifier as a catch-all.
pub open spec fn grab_plan(binds: Seq<Keybind>) -> Seq<Command> {
    seq![Command::UngrabAllKeys]
        + Seq::new(binds.len(), |i: int| Command::GrabKey(binds[i].0, binds[i].1))
        + seq![Command::GrabAnyKey]
}

/// The commands a mapping-notify event produces: re-fetch the keyboard
/// mapping for the affected range and, when the notification concerns
/// the keyboard, re-run keybind installation.
pub open spec fn mapping_notify_commands(
    s: WmState,
    request: MappingKind,
    first_keycode: Keycode,
    count: u8,
) -> Seq<Command> {
    seq![Command::GetKeyboardMapping(first_keycode, count)] + if request is Keyboard {
        grab_plan(s.keybinds)
    } else {
        Seq::empty()
    }
}

/// Whether a map request is accepted: the attribute query must have
/// succeeded, override-redirect must be unset, and the window must not
/// be managed already.
pub open spec fn map_request_accepts(
    s: WmState,
    window: Window,
    attr: Option<WindowAttributes>,
) -> bool {
    match attr {
        Some(a) => !a.override_redirect && !contains_window(s.windows, window),
        None => false,
    }
}

/// A map request for a window already managed is never accepted: no
/// duplicate client is created and no second map command is issued,
/// whatever the queried attributes say.
pub proof fn lemma_map_request_no_duplicate(
    s: WmState,
    window: Window,
    attr: Option<WindowAttributes>,
)
    requires
        contains_window(s.windows, window),
    ensures
        !map_request_accepts(s, window, attr),
{
}

/// A map request for a window whose attributes carry override-redirect
/// is never accepted, whatever the registry holds: together with the
/// scan's exclusion, such a window never enters the registry.
pub proof fn lemma_map_request_never_accepts_override_redirect(
    s: WmState,
    window: Window,
    attr: Option<WindowAttributes>,
)
    requires
        override_redirect_set(attr),
    ensures
        !map_request_accepts(s, window, attr),
{
}

/// The state and outcome a key press leads to: the first matching
/// keybind in table order fires; an unmatched press is a no-op. The
/// infallible mutating actions rotate the focus ring or stop the loop;
/// the fallible kill action names the focused client's window or
/// reports that none is focused.
pub open spec fn step_key_press(s: WmState, detail: Keycode, state: u16) -> (WmState, Result<
    Seq<Command>,
    WmError,
>) {
    match first_match_index(s.keybinds, detail, state) {
        None => (s, Ok(Seq::empty())),
        Some(i) => match s.keybinds[i].2 {
            KeybindFunction::FnVoidMut(a) => (
                match a {
                    MutAction::FocusNext => WmState { windows: rotated_next(s.windows), ..s },
                    MutAction::FocusPrev => WmState { windows: rotated_prev(s.windows), ..s },
                    MutAction::Quit => WmState { running: false, ..s },
                },
                Ok(Seq::empty()),
            ),
            KeybindFunction::FnResultMut(a) => match a {
                FallibleMutAction::KillFocused => if s.windows.len() == 0 {
                    (s, Err(WmError::NoFocusedClient))
                } else {
                    (s, Ok(seq![Command::KillClient(s.windows[0].window)]))
                },
            },
        },
    }
}

/// The state and outcome one inbound event leads to. Events the core
/// does not handle are no-ops; a map request first asks for the
/// window's attributes, and the decision continues in the map-request
/// handler once they are known.
pub open spec fn step_event(s: WmState, event: Event) -> (WmState, Result<Seq<Command>, WmError>) {
    match event {
        Event::DestroyNotify { window } => (
            WmState { windows: without_window(s.windows, window), ..s },
            Ok(Seq::empty()),
        ),
        Event::UnmapNotify { window } => (
            WmState { windows: removed_first(s.windows, window), ..s },
            Ok(Seq::empty()),
        ),
        Event::ConfigureRequest(req) => (s, Ok(seq![Command::Configure(req.forwarded())])),
        Event::MapRequest { window } => (s, Ok(seq![Command::QueryAttributes(window)])),
        Event::MappingNotify { request, first_keycode, count } => (
            s,
            Ok(mapping_notify_commands(s, request, first_keycode, count)),
        ),
        Event::KeyPress { detail, state } => step_key_press(s, detail, state),
        _ => (s, Ok(Seq::empty())),
    }
}

/// The command sequence a handler outcome carries.
pub open spec fn cmds_view(r: Result<Vec<Command>, WmError>) -> Result<Seq<Command>, WmError> {
    match r {
        Ok(c) => Ok(c@),
        Err(e) => Err(e),
    }
}

/// What the map-request handler decides once the window's attributes
/// are known: adopt the window or leave it alone.
#[derive(Clone, Copy, Debug, PartialEq, Eq)]
pub enum MapDecision {
    /// Do nothing: the attribute query failed, the window is
    /// override-redirect, or it is already managed.
    Ignore,
    /// Map the window on the server, query its geometry, and adopt it.
    Manage,
}

/// The window manager core state: the root window it manages, the
/// running flag of the dispatch loop, the client registry ordered by
/// focus priority (front focused), and the keybind table.
pub struct WindowManager {
    pub root: Window,
    pub running: bool,
    pub windows: VecDeque<Client>,
    pub keybinds: Vec<Keybind>,
}

impl View for WindowManager {
    type V = WmState;

    open spec fn view(&self) -> WmState {
        WmState {
            root: self.root,
            running: self.running,
            windows: self.windows@,
            keybinds: self.keybinds@,
        }
    }
}

impl WindowManager {
    /// Creates the core for the given root window: running, with no
    /// managed clients and an empty keybind table. Claiming the
    /// substructure redirect on the server comes first and is the
    /// connection layer's to issue; `register_wm` classifies its
    /// outcome, and the core is only built once it reports success.
    pub fn new(root: Window) -> (wm: WindowManager)
        ensures
            wm@ == (WmState {
                root,
                running: true,
                windows: Seq::<Client>::empty(),
                keybinds: Seq::<Keybind>::empty(),
            }),
            wm@.wf(),
    {
        WindowManager {
            root,
            running: true,
            windows: VecDeque::new(),
            keybinds: Vec::new(),
        }
    }

    /// Classifies the server's reply to the registration request that
    /// claims the substructure redirect and notify event categories on
    /// the root window. An access violation means another window
    /// manager already holds the redirect: the process must report the
    /// condition and terminate. Any other failure is a fatal connection
    /// error for the caller to propagate.
    pub fn register_wm(reply: RegisterReply) -> (r: Result<(), RegisterError>)
        ensures
            r is Ok <==> reply is Success,
            r == Err::<(), RegisterError>(RegisterError::AlreadyRunning) <==> reply is X11Access,
            r == Err::<(), RegisterError>(RegisterError::Failed) <==> (reply is X11Other
                || reply is Connection),
    {
        match reply {
            RegisterReply::Success => Ok(()),
            RegisterReply::X11Access => Err(RegisterError::AlreadyRunning),
            RegisterReply::X11Other => Err(RegisterError::Failed),
            RegisterReply::Connection => Err(RegisterError::Failed),
        }
    }

    /// Replaces the whole keybind table; individual entries are never
    /// mutated.
    pub fn set_keybinds(&mut self, keybinds: Vec<Keybind>)
        ensures
            final(self)@ == (WmState { keybinds: keybinds@, ..old(self)@ }),
    {
        self.keybinds = keybinds;
    }

    /// Sets the running flag false: the terminal state. The dispatch
    /// loop observes it once the current event burst is drained.
    pub fn quit(&mut self)
        ensures
            final(self)@ == (WmState { running: false, ..old(self)@ }),
    {
        self.running = false;
    }

    /// Rotates the focus ring front-to-back: the focused client moves
    /// to the back and the client behind it becomes focused. A no-op
    /// when fewer than two clients are managed.
    pub fn focus_next(&mut self)
        ensures
            final(self)@ == (WmState {
                windows: rotated_next(old(self)@.windows),
                ..old(self)@
            }),
            old(self)@.wf() ==> final(self)@.wf(),
    {
        proof {
            lemma_rotation_preserves_unique(self@.windows);
        }
        if self.windows.len() < 2 {
            return;
        }
        let temp = self.windows.pop_front().unwrap();
        self.windows.push_back(temp);
        proof {
            assert(self@.windows =~= rotated_next(old(self)@.windows));
        }
    }

    /// Rotates the focus ring back-to-front: the back client becomes
    /// focused. A no-op when fewer than two clients are managed.
    pub fn focus_prev(&mut self)
        ensures
            final(self)@ == (WmState {
                windows: rotated_prev(old(self)@.windows),
                ..old(self)@
            }),
            old(self)@.wf() ==> final(self)@.wf(),
    {
        proof {
            lemma_rotation_preserves_unique(self@.windows);
        }
        if self.windows.len() < 2 {
            return;
        }
        let temp = self.windows.pop_back().unwrap();
        self.windows.push_front(temp);
        proof {
            assert(self@.windows =~= rotated_prev(old(self)@.windows));
        }
    }

    /// Names the window whose client is to be forcefully terminated:
    /// the focused one, at the front of the registry. Reports a failure
    /// when no client is focused; the kill request itself is the
    /// connection layer's to issue.
    pub fn kill_focused(&self) -> (r: Result<Window, WmError>)
        ensures
            self@.windows.len() > 0 ==> r == Ok::<Window, WmError>(self@.windows[0].window),
            self@.windows.len() == 0 ==> r == Err::<Window, WmError>(WmError::NoFocusedClient),
    {
        if self.windows.len() == 0 {
            Err(WmError::NoFocusedClient)
        } else {
            Ok(self.windows[0].window)
        }
    }

    /// Adopts a window as a newly managed client at the front of the
    /// registry: a freshly adopted window is the focused one.
    pub fn manage_window(&mut self, window: Window, geom: &Geometry)
        ensures
            final(self)@ == (WmState {
                windows: seq![
                    (Client {
                        window,
                        x: geom.x,
                        y: geom.y,
                        w: geom.width,
                        h: geom.height,
                        border_width: geom.border_width,
                    }),
                ] + old(self)@.windows,
                ..old(self)@
            }),
            old(self)@.wf() && !contains_window(old(self)@.windows, window)
                ==> final(self)@.wf(),
    {
        let c = Client::new(window, geom.x, geom.y, geom.width, geom.height, geom.border_width);
        proof {
            if self@.wf() && !contains_window(self@.windows, window) {
                lemma_push_front_preserves_unique(self@.windows, c);
            }
        }
        self.windows.push_front(c);
    }

    /// Hook run when the dispatch loop exits; a placeholder for future
    /// resource release.
    pub fn cleanup(&self) {
    }

    /// Whether a client with this window identifier is managed.
    fn is_managed(&self, window: Window) -> (b: bool)
        ensures
            b == contains_window(self@.windows, window),
    {
        let mut i: usize = 0;
        while i < self.windows.len()
            invariant
                i <= self.windows@.len(),
                forall|j: int| 0 <= j < i ==> self.windows@[j].window != window,
            decreases self.windows@.len() - i,
        {
            if self.windows[i].window == window {
                proof {
                    assert(self.windows@[i as int].window == window);
                }
                return true;
            }
            i = i + 1;
        }
        proof {
            if contains_window(self@.windows, window) {
                let k = choose|k: int| 0 <= k < self.windows@.len()
                    && self.windows@[k].window == window;
                assert(self.windows@[k].window != window);
            }
        }
        false
    }

    /// The index of the first keybind in table order that the key
    /// press matches, if any.
    fn find_keybind(&self, detail: Keycode, state: u16) -> (r: Option<usize>)
        ensures
            match r {
                Some(i) => i < self.keybinds@.len() && first_match_index(
                    self.keybinds@,
                    detail,
                    state,
                ) == Some(i as int),
                None => first_match_index(self.keybinds@, detail, state) is None,
            },
    {
        let mut i: usize = 0;
        while i < self.keybinds.len()
            invariant
                i <= self.keybinds@.len(),
                forall|j: int| 0 <= j < i ==> !keybind_matches(self.keybinds@[j], detail, state),
            decreases self.keybinds@.len() - i,
        {
            let kb = self.keybinds[i];
            if kb.0 == detail && (state & 0x7f) == kb.1 {
                proof {
                    assert(keybind_matches(self.keybinds@[i as int], detail, state));
                    lemma_first_match_index_unique(self.keybinds@, detail, state, i as int);
                }
                return Some(i);
            }
            i = i + 1;
        }
        proof {
            lemma_first_match_index_spec(self.keybinds@, detail, state);
        }
        None
    }

    /// The index of the first client bearing this window identifier,
    /// if one is managed.
    fn find_window(&self, window: Window) -> (r: Option<usize>)
        ensures
            match r {
                Some(i) => i < self.windows@.len() && first_window_index(
                    self.windows@,
                    window,
                ) == Some(i as int),
                None => first_window_index(self.windows@, window) is None,
            },
    {
        let mut i: usize = 0;
        while i < self.windows.len()
            invariant
                i <= self.windows@.len(),
                forall|j: int| 0 <= j < i ==> self.windows@[j].window != window,
            decreases self.windows@.len() - i,
        {
            if self.windows[i].window == window {
                proof {
                    lemma_first_window_index_unique(self.windows@, window, i as int);
                }
                return Some(i);
            }
            i = i + 1;
        }
        proof {
            lemma_first_window_index_spec(self.windows@, window);
        }
        None
    }

    /// Removes every client of the destroyed window — defensively all,
    /// though at most one matches under the registry invariant. A
    /// destroyed window that was not managed leaves the registry
    /// unchanged.
    pub fn handle_destroy_notify(&mut self, window: Window)
        ensures
            final(self)@ == (WmState {
                windows: without_window(old(self)@.windows, window),
                ..old(self)@
            }),
            old(self)@.wf() ==> final(self)@.wf(),
            !contains_window(old(self)@.windows, window) ==> final(self)@ == old(self)@,
    {
        let mut kept: VecDeque<Client> = VecDeque::new();
        let n = self.windows.len();
        let mut i: usize = 0;
        while i < n
            invariant
                i <= n,
                n == self.windows@.len(),
                self@ == old(self)@,
                kept@ == without_window(self.windows@.take(i as int), window),
            decreases n - i,
        {
            let c = self.windows[i];
            proof {
                assert(self.windows@.take(i as int + 1).drop_last() =~= self.windows@.take(
                    i as int,
                ));
                assert(self.windows@.take(i as int + 1).last() == c);
            }
            if c.window != window {
                kept.push_back(c);
            }
            i = i + 1;
        }
        proof {
            assert(self.windows@.take(n as int) =~= self.windows@);
        }
        self.windows = kept;
        proof {
            if old(self)@.wf() {
                lemma_without_window_unique(old(self)@.windows, window);
            }
            if !contains_window(old(self)@.windows, window) {
                lemma_without_window_absent(old(self)@.windows, window);
            }
        }
    }

    /// Removes the client of the unmapped window, if one is managed;
    /// an unmapped window that was not managed is a no-op.
    pub fn handle_unmap_notify(&mut self, window: Window)
        ensures
            final(self)@ == (WmState {
                windows: removed_first(old(self)@.windows, window),
                ..old(self)@
            }),
            old(self)@.wf() ==> final(self)@.wf(),
            !contains_window(old(self)@.windows, window) ==> final(self)@ == old(self)@,
    {
        let found = self.find_window(window);
        proof {
            lemma_first_window_index_spec(old(self)@.windows, window);
        }
        if let Some(i) = found {
            self.windows.remove(i);
            proof {
                assert(contains_window(old(self)@.windows, window)) by {
                    assert(old(self)@.windows[i as int].window == window);
                }
                if old(self)@.wf() {
                    lemma_remove_preserves_unique(old(self)@.windows, i as int);
                }
            }
        }
    }

    /// Translates a configure request into the configure command that
    /// forwards the requested fields verbatim to the server.
    pub fn handle_configure_request(&self, event: &ConfigureRequest) -> (c: Command)
        ensures
            c == Command::Configure(event.forwarded()),
    {
        Command::Configure(event.to_command())
    }

    /// Decides a map request once the requested window's attributes
    /// are known; an empty attribute argument stands for a failed
    /// query, which abandons the request. A window with
    /// override-redirect set is never managed, and one already managed
    /// is left alone: no duplicate client and no second map command
    /// arise. Only a `Manage` decision maps the window and, once its
    /// geometry is known, adopts it through `manage_window`.
    pub fn handle_map_request(&self, window: Window, attr: Option<WindowAttributes>) -> (d:
        MapDecision)
        ensures
            d is Manage <==> map_request_accepts(self@, window, attr),
    {
        match attr {
            None => MapDecision::Ignore,
            Some(a) => {
                if a.override_redirect {
                    MapDecision::Ignore
                } else if self.is_managed(window) {
                    MapDecision::Ignore
                } else {
                    MapDecision::Manage
                }
            },
        }
    }

    /// Adopts the eligible children found by the startup scan, in
    /// order. A child is adopted only when both its queries succeeded,
    /// its override-redirect attribute is unset and its map state is
    /// not unmapped; every other child is silently skipped.
    pub fn scan_existing(&mut self, items: &Vec<ScanItem>)
        ensures
            final(self)@ == (WmState {
                windows: scanned(old(self)@.windows, items@),
                ..old(self)@
            }),
            old(self)@.wf() && scan_items_fresh(old(self)@.windows, items@)
                ==> final(self)@.wf(),
    {
        let mut i: usize = 0;
        while i < items.len()
            invariant
                i <= items@.len(),
                self@ == (WmState {
                    windows: scanned(old(self)@.windows, items@.take(i as int)),
                    ..old(self)@
                }),
            decreases items@.len() - i,
        {
            let item = items[i];
            proof {
                assert(items@.take(i as int + 1).drop_last() =~= items@.take(i as int));
                assert(items@.take(i as int + 1).last() == item);
            }
            if let Some(attr) = item.attr {
                if let Some(geom) = item.geom {
                    if !attr.override_redirect && !matches!(attr.map_state, MapState::Unmapped) {
                        self.manage_window(item.window, &geom);
                    }
                }
            }
            i = i + 1;
        }
        proof {
            assert(items@.take(items@.len() as int) =~= items@);
            if old(self)@.wf() && scan_items_fresh(old(self)@.windows, items@) {
                lemma_scanned_unique(old(self)@.windows, items@);
            }
        }
    }

    /// Sets up the window manager once registration succeeded: adopts
    /// the eligible children found by the startup scan, then computes
    /// the keybind installation requests for the connection layer to
    /// issue.
    pub fn setup(&mut self, items: &Vec<ScanItem>) -> (r: Vec<Command>)
        ensures
            final(self)@ == (WmState {
                windows: scanned(old(self)@.windows, items@),
                ..old(self)@
            }),
            r@ == grab_plan(old(self)@.keybinds),
            old(self)@.wf() && scan_items_fresh(old(self)@.windows, items@)
                ==> final(self)@.wf(),
    {
        self.scan_existing(items);
        self.grab_keys()
    }

    /// Computes the keybind installation requests: release every key
    /// grab on the root window first, so repeated installation is
    /// idempotent; grab each bound key under its exact modifier mask;
    /// then grab any key under any modifier as a catch-all so all key
    /// events reach the manager. Issuing the requests is the
    /// connection layer's work, where any grab failure is fatal.
    pub fn grab_keys(&self) -> (r: Vec<Command>)
        ensures
            r@ == grab_plan(self@.keybinds),
    {
        let mut cmds: Vec<Command> = Vec::new();
        cmds.push(Command::UngrabAllKeys);
        let mut i: usize = 0;
        while i < self.keybinds.len()
            invariant
                i <= self.keybinds@.len(),
                cmds@ == seq![Command::UngrabAllKeys] + Seq::new(
                    i as nat,
                    |k: int| Command::GrabKey(self.keybinds@[k].0, self.keybinds@[k].1),
                ),
            decreases self.keybinds@.len() - i,
        {
            let kb = self.keybinds[i];
            cmds.push(Command::GrabKey(kb.0, kb.1));
            proof {
                assert(cmds@ =~= seq![Command::UngrabAllKeys] + Seq::new(
                    i as nat + 1,
                    |k: int| Command::GrabKey(self.keybinds@[k].0, self.keybinds@[k].1),
                ));
            }
            i = i + 1;
        }
        cmds.push(Command::GrabAnyKey);
        proof {
            assert(cmds@ =~= grab_plan(self@.keybinds));
        }
        cmds
    }

    /// Reacts to a mapping-notify event: re-fetch the keyboard mapping
    /// for the affected key-code range and, when the notification
    /// concerns the keyboard, re-run keybind installation to restore
    /// the grabs under the new mapping.
    pub fn handle_mapping_notify(
        &self,
        request: MappingKind,
        first_keycode: Keycode,
        count: u8,
    ) -> (r: Vec<Command>)
        ensures
            r@ == mapping_notify_commands(self@, request, first_keycode, count),
    {
        let mut cmds: Vec<Command> = Vec::new();
        cmds.push(Command::GetKeyboardMapping(first_keycode, count));
        if matches!(request, MappingKind::Keyboard) {
            let mut grabs = self.grab_keys();
            cmds.append(&mut grabs);
        }
        proof {
            assert(cmds@ =~= mapping_notify_commands(self@, request, first_keycode, count));
        }
        cmds
    }

    /// Matches a key press against the keybind table in table order
    /// and invokes the first matching action; later entries with the
    /// same key code and modifier mask never fire. An unmatched press
    /// is a no-op. A fallible action's error propagates to the
    /// dispatch loop as a fatal condition.
    pub fn handle_key_press(&mut self, detail: Keycode, state: u16) -> (r: Result<
        Vec<Command>,
        WmError,
    >)
        ensures
            final(self)@ == step_key_press(old(self)@, detail, state).0,
            cmds_view(r) == step_key_press(old(self)@, detail, state).1,
            old(self)@.wf() ==> final(self)@.wf(),
    {
        let found = self.find_keybind(detail, state);
        match found {
            None => Ok(Vec::new()),
            Some(i) => {
                let kb = self.keybinds[i];
                match kb.2 {
                    KeybindFunction::FnVoidMut(a) => {
                        match a {
                            MutAction::FocusNext => self.focus_next(),
                            MutAction::FocusPrev => self.focus_prev(),
                            MutAction::Quit => self.quit(),
                        }
                        Ok(Vec::new())
                    },
                    KeybindFunction::FnResultMut(a) => match a {
                        FallibleMutAction::KillFocused => match self.kill_focused() {
                            Ok(w) => Ok(one_command(Command::KillClient(w))),
                            Err(e) => Err(e),
                        },
                    },
                }
            },
        }
    }

    /// Dispatches one inbound event to its handler and returns the
    /// commands the connection layer must issue. Unmatched event
    /// categories are no-ops.
    pub fn handle_event(&mut self, event: Event) -> (r: Result<Vec<Command>, WmError>)
        ensures
            final(self)@ == step_event(old(self)@, event).0,
            cmds_view(r) == step_event(old(self)@, event).1,
            old(self)@.wf() ==> final(self)@.wf(),
    {
        match event {
            Event::DestroyNotify { window } => {
                self.handle_destroy_notify(window);
                Ok(Vec::new())
            },
            Event::UnmapNotify { window } => {
                self.handle_unmap_notify(window);
                Ok(Vec::new())
            },
            Event::ConfigureRequest(req) => {
                let c = self.handle_configure_request(&req);
                Ok(one_command(c))
            },
            Event::MapRequest { window } => Ok(one_command(Command::QueryAttributes(window))),
            Event::MappingNotify { request, first_keycode, count } => Ok(
                self.handle_mapping_notify(request, first_keycode, count),
            ),
            Event::KeyPress { detail, state } => self.handle_key_press(detail, state),
            Event::EnterNotify => {
                self.handle_enter_notify();
                Ok(Vec::new())
            },
            Event::ButtonPress => {
                self.handle_button_press();
                Ok(Vec::new())
            },
            Event::ButtonRelease => {
                self.handle_button_release();
                Ok(Vec::new())
            },
            Event::MotionNotify => {
                self.handle_motion_notify();
                Ok(Vec::new())
            },
            Event::Other => Ok(Vec::new()),
        }
    }

    /// Reserved extension point for pointer-driven focus; currently a
    /// no-op.
    fn handle_enter_notify(&self) {
    }

    /// Reserved extension point; currently a no-op.
    fn handle_button_press(&self) {
    }

    /// Reserved extension point; currently a no-op.
    fn handle_button_release(&self) {
    }

    /// Reserved extension point for mouse-driven move and resize;
    /// currently a no-op.
    fn handle_motion_notify(&self) {
    }
}

/// A result carrying one command.
fn one_command(c: Command) -> (r: Vec<Command>)
    ensures
        r@ == seq![c],
{
    let mut v: Vec<Command> = Vec::new();
    v.push(c);
    proof {
        assert(v@ =~= seq![c]);
    }
    v
}

/// The index that bears the window identifier with no earlier client
/// bearing it is the first.
pub proof fn lemma_first_window_index_unique(s: Seq<Client>, w: Window, i: int)
    requires
        0 <= i < s.len(),
        s[i].window == w,
        forall|j: int| 0 <= j < i ==> s[j].window != w,
    ensures
        first_window_index(s, w) == Some(i),
{
    lemma_first_window_index_spec(s, w);
    match first_window_index(s, w) {
        Some(k) => {
            if k < i {
                assert(s[k].window != w);
            } else if i < k {
                assert(s[i].window != w);
            }
        },
        None => {
            assert(s[i].window != w);
        },
    }
}

/// Rotating the focus ring in either direction only permutes the
/// registry, so the registry invariant is preserved.
pub proof fn lemma_rotation_preserves_unique(s: Seq<Client>)
    ensures
        unique_windows(s) ==> unique_windows(rotated_next(s)),
        unique_windows(s) ==> unique_windows(rotated_prev(s)),
{
    if unique_windows(s) && s.len() >= 2 {
        let n = rotated_next(s);
        assert forall|i: int, j: int| 0 <= i < j < n.len() implies n[i].window != n[j].window by {
            if j < n.len() - 1 {
                assert(n[i] == s[i + 1]);
                assert(n[j] == s[j + 1]);
            } else {
                assert(n[j] == s[0]);
                assert(n[i] == s[i + 1]);
            }
        }
        let p = rotated_prev(s);
        assert forall|i: int, j: int| 0 <= i < j < p.len() implies p[i].window != p[j].window by {
            if i == 0 {
                assert(p[0] == s[s.len() - 1]);
                assert(p[j] == s[j - 1]);
            } else {
                assert(p[i] == s[i - 1]);
                assert(p[j] == s[j - 1]);
            }
        }
    }
}

/// Rotating the focus ring one way and then the other restores the
/// original registry order, whatever it holds; with fewer than two
/// clients both rotations are no-ops.
pub proof fn lemma_focus_rotation_inverse(s: Seq<Client>)
    ensures
        rotated_prev(rotated_next(s)) == s,
        rotated_next(rotated_prev(s)) == s,
        s.len() < 2 ==> rotated_next(s) == s && rotated_prev(s) == s,
{
    if s.len() >= 2 {
        assert(rotated_prev(rotated_next(s)) =~= s);
        assert(rotated_next(rotated_prev(s)) =~= s);
    }
}

/// A client stays in the registry after removing a window identifier
/// exactly when it was there and does not bear that identifier.
pub proof fn lemma_without_window_membership(s: Seq<Client>, w: Window, v: Window)
    ensures
        contains_window(without_window(s, w), v) <==> (contains_window(s, v) && v != w),
    decreases s.len(),
{
    if s.len() == 0 {
        assert(!contains_window(without_window(s, w), v));
        assert(!contains_window(s, v));
    } else {
        let rest = s.drop_last();
        lemma_without_window_membership(rest, w, v);
        if contains_window(s, v) {
            let i = choose|i: int| 0 <= i < s.len() && s[i].window == v;
            if i < s.len() - 1 {
                assert(rest[i].window == v);
                assert(contains_window(rest, v));
            }
        }
        if contains_window(rest, v) {
            let i = choose|i: int| 0 <= i < rest.len() && rest[i].window == v;
            assert(s[i].window == v);
            assert(contains_window(s, v));
        }
        if s.last().window == w {
            assert(s[s.len() - 1].window == w);
            assert(contains_window(s, w));
        } else {
            let t = without_window(rest, w).push(s.last());
            if contains_window(t, v) {
                let i = choose|i: int| 0 <= i < t.len() && t[i].window == v;
                if i < t.len() - 1 {
                    assert(without_window(rest, w)[i].window == v);
                    assert(contains_window(without_window(rest, w), v));
                } else {
                    assert(s.last().window == v);
                    assert(s[s.len() - 1].window == v);
                    assert(contains_window(s, v));
                }
            }
            if contains_window(without_window(rest, w), v) {
                let i = choose|i: int| 0 <= i < without_window(rest, w).len()
                    && without_window(rest, w)[i].window == v;
                assert(t[i].window == v);
                assert(contains_window(t, v));
            }
            if s.last().window == v {
                assert(t[t.len() - 1].window == v);
                assert(contains_window(t, v));
            }
        }
    }
}

/// Removing a window identifier keeps the registry invariant.
pub proof fn lemma_without_window_unique(s: Seq<Client>, w: Window)
    requires
        unique_windows(s),
    ensures
        unique_windows(without_window(s, w)),
    decreases s.len(),
{
    if s.len() > 0 {
        let rest = s.drop_last();
        assert(forall|i: int| 0 <= i < rest.len() ==> rest[i] == s[i]);
        lemma_without_window_unique(rest, w);
        if s.last().window != w {
            let prior = without_window(rest, w);
            let t = prior.push(s.last());
            if contains_window(rest, s.last().window) {
                let i = choose|i: int| 0 <= i < rest.len() && rest[i].window == s.last().window;
                assert(s[i].window == s[s.len() - 1].window);
            }
            lemma_without_window_membership(rest, w, s.last().window);
            assert forall|i: int, j: int| 0 <= i < j < t.len() implies t[i].window
                != t[j].window by {
                if j < t.len() - 1 {
                    assert(t[i] == prior[i]);
                    assert(t[j] == prior[j]);
                } else {
                    assert(t[i] == prior[i]);
                    if prior[i].window == s.last().window {
                        assert(contains_window(prior, s.last().window));
                    }
                }
            }
        }
    }
}

/// Removing a window identifier that no client bears leaves the
/// registry as it was.
pub proof fn lemma_without_window_absent(s: Seq<Client>, w: Window)
    requires
        !contains_window(s, w),
    ensures
        without_window(s, w) == s,
    decreases s.len(),
{
    if s.len() == 0 {
        assert(without_window(s, w) =~= s);
    } else {
        let rest = s.drop_last();
        if contains_window(rest, w) {
            let i = choose|i: int| 0 <= i < rest.len() && rest[i].window == w;
            assert(s[i].window == w);
            assert(contains_window(s, w));
        }
        lemma_without_window_absent(rest, w);
        if s.last().window == w {
            assert(s[s.len() - 1].window == w);
            assert(contains_window(s, w));
        }
        assert(without_window(s, w) =~= s);
    }
}

/// What `first_window_index` returns: the index of a client bearing the
/// window identifier, before which no client bears it; or nothing when
/// no client bears it.
pub proof fn lemma_first_window_index_spec(s: Seq<Client>, w: Window)
    ensures
        match first_window_index(s, w) {
            Some(i) => 0 <= i < s.len() && s[i].window == w && (forall|j: int|
                0 <= j < i ==> s[j].window != w),
            None => forall|j: int| 0 <= j < s.len() ==> s[j].window != w,
        },
    decreases s.len(),
{
    if s.len() == 0 {
    } else if s.first().window == w {
    } else {
        lemma_first_window_index_spec(s.drop_first(), w);
        assert(forall|j: int| 1 <= j < s.len() ==> s[j] == s.drop_first()[j - 1]);
    }
}

/// Removing one client keeps the registry invariant.
pub proof fn lemma_remove_preserves_unique(s: Seq<Client>, i: int)
    requires
        unique_windows(s),
        0 <= i < s.len(),
    ensures
        unique_windows(s.remove(i)),
{
    let t = s.remove(i);
    assert forall|a: int, b: int| 0 <= a < b < t.len() implies t[a].window != t[b].window by {
        let a2 = if a < i { a } else { a + 1 };
        let b2 = if b < i { b } else { b + 1 };
        assert(t[a] == s[a2]);
        assert(t[b] == s[b2]);
    }
}

/// A window is managed after the startup scan exactly when it was
/// managed before or some adopted child bears it.
pub proof fn lemma_scanned_membership(s: Seq<Client>, items: Seq<ScanItem>, v: Window)
    ensures
        contains_window(scanned(s, items), v) <==> (contains_window(s, v) || exists|i: int|
            0 <= i < items.len() && (#[trigger] items[i]).window == v && scan_adopts(items[i])),
    decreases items.len(),
{
    if items.len() == 0 {
    } else {
        let rest = items.drop_last();
        lemma_scanned_membership(s, rest, v);
        assert(forall|i: int| 0 <= i < rest.len() ==> rest[i] == items[i]);
        if exists|i: int| 0 <= i < rest.len() && (#[trigger] rest[i]).window == v
            && scan_adopts(rest[i]) {
            let i = choose|i: int| 0 <= i < rest.len() && (#[trigger] rest[i]).window == v
                && scan_adopts(rest[i]);
            assert(items[i].window == v && scan_adopts(items[i]));
        }
        let prior = scanned(s, rest);
        if scan_adopts(items.last()) {
            let t = seq![adopted_client(items.last())] + prior;
            if contains_window(t, v) {
                let i = choose|i: int| 0 <= i < t.len() && t[i].window == v;
                if i == 0 {
                    assert(items[items.len() - 1].window == v);
                } else {
                    assert(prior[i - 1].window == v);
                    assert(contains_window(prior, v));
                }
            }
            if contains_window(prior, v) {
                let i = choose|i: int| 0 <= i < prior.len() && prior[i].window == v;
                assert(t[i + 1].window == v);
                assert(contains_window(t, v));
            }
            if items.last().window == v {
                assert(t[0].window == v);
                assert(contains_window(t, v));
            }
            if exists|i: int| 0 <= i < items.len() && (#[trigger] items[i]).window == v
                && scan_adopts(items[i]) {
                let i = choose|i: int| 0 <= i < items.len() && (#[trigger] items[i]).window == v
                    && scan_adopts(items[i]);
                if i < items.len() - 1 {
                    assert(rest[i].window == v && scan_adopts(rest[i]));
                }
            }
        } else {
            if exists|i: int| 0 <= i < items.len() && (#[trigger] items[i]).window == v
                && scan_adopts(items[i]) {
                let i = choose|i: int| 0 <= i < items.len() && (#[trigger] items[i]).window == v
                    && scan_adopts(items[i]);
                assert(i < items.len() - 1);
                assert(rest[i].window == v && scan_adopts(rest[i]));
            }
        }
    }
}

/// Scanning children with fresh, pairwise distinct window identifiers
/// keeps the registry invariant.
pub proof fn lemma_scanned_unique(s: Seq<Client>, items: Seq<ScanItem>)
    requires
        unique_windows(s),
        scan_items_fresh(s, items),
    ensures
        unique_windows(scanned(s, items)),
    decreases items.len(),
{
    if items.len() > 0 {
        let rest = items.drop_last();
        assert(forall|i: int| 0 <= i < rest.len() ==> rest[i] == items[i]);
        lemma_scanned_unique(s, rest);
        if scan_adopts(items.last()) {
            let w = items.last().window;
            lemma_scanned_membership(s, rest, w);
            if contains_window(s, w) {
                assert(!contains_window(s, items[items.len() - 1].window));
            }
            if exists|i: int| 0 <= i < rest.len() && (#[trigger] rest[i]).window == w
                && scan_adopts(rest[i]) {
                let i = choose|i: int| 0 <= i < rest.len() && (#[trigger] rest[i]).window == w
                    && scan_adopts(rest[i]);
                assert(items[i].window == items[items.len() - 1].window);
            }
            lemma_push_front_preserves_unique(scanned(s, rest), adopted_client(items.last()));
        }
    }
}

/// A child whose attributes carry override-redirect, or whose queries
/// failed, is never adopted by the startup scan: a window not already
/// managed whose every occurrence among the children is of that kind is
/// still unmanaged after the scan, whatever else the scan adopts.
pub proof fn lemma_scan_excludes_override_redirect(
    s: Seq<Client>,
    items: Seq<ScanItem>,
    v: Window,
)
    requires
        !contains_window(s, v),
        forall|i: int| 0 <= i < items.len() && (#[trigger] items[i]).window == v
            ==> (items[i].attr is None || override_redirect_set(items[i].attr)),
    ensures
        !contains_window(scanned(s, items), v),
{
    lemma_scanned_membership(s, items, v);
    if exists|i: int| 0 <= i < items.len() && (#[trigger] items[i]).window == v
        && scan_adopts(items[i]) {
        let i = choose|i: int| 0 <= i < items.len() && (#[trigger] items[i]).window == v
            && scan_adopts(items[i]);
        assert(!(items[i].attr is None || override_redirect_set(items[i].attr)));
    }
}

/// Pushing a client with a fresh window identifier to the front keeps
/// the registry invariant.
pub proof fn lemma_push_front_preserves_unique(s: Seq<Client>, c: Client)
    requires
        unique_windows(s),
        !contains_window(s, c.window),
    ensures
        unique_windows(seq![c] + s),
{
    let t = seq![c] + s;
    assert forall|i: int, j: int| 0 <= i < j < t.len() implies t[i].window != t[j].window by {
        if i == 0 {
            assert(t[j] == s[j - 1]);
            if t[0].window == t[j].window {
                assert(s[j - 1].window == c.window);
                assert(contains_window(s, c.window));
            }
        } else {
            assert(t[i] == s[i - 1]);
            assert(t[j] == s[j - 1]);
        }
    }
}

} // verus!
