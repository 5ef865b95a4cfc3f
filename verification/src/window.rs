//! The window controller: mini mode (a small always-on-top window that
//! remembers where it was), maximizing and restoring. Each command takes the
//! controller state and what the window reported, updates the state and
//! returns the window operations to perform, in order.

use vstd::prelude::*;

verus! {

/// Width of the mini window, in physical pixels.
pub const MINI_WIDTH: u32 = 420;

/// Height of the mini window, in physical pixels.
pub const MINI_HEIGHT: u32 = 230;

/// Distance of a newly placed mini window from the bottom of the screen.
pub const OFFSET_FROM_BOTTOM: i32 = 60;

/// Distance of a newly placed mini window from the right of the screen.
pub const OFFSET_FROM_RIGHT: i32 = 20;

/// A window position in physical pixels.
#[derive(Clone, Copy, Debug, PartialEq, Eq, Structural)]
pub struct Position {
    pub x: i32,
    pub y: i32,
}

/// A window or screen size in physical pixels.
#[derive(Clone, Copy, Debug, PartialEq, Eq, Structural)]
pub struct Size {
    pub width: u32,
    pub height: u32,
}

/// What the controller remembers between commands.
#[derive(Clone, Copy, Debug, PartialEq, Eq, Structural)]
pub struct WindowState {
    pub is_mini_mode: bool,
    pub previous_width: u32,
    pub previous_height: u32,
    pub previous_x: i32,
    pub previous_y: i32,
    pub previous_resizable: bool,
    pub mini_window_x: i32,
    pub mini_window_y: i32,
    pub has_mini_position: bool,
}

/// What the window reports when a command runs; `None` where the query
/// failed (or, for the monitor, where there is none).
#[derive(Clone, Copy, Debug, PartialEq, Eq, Structural)]
pub struct WindowSnapshot {
    pub outer_position: Option<Position>,
    pub outer_size: Option<Size>,
    pub is_resizable: Option<bool>,
    pub is_maximized: Option<bool>,
    pub monitor_size: Option<Size>,
}

/// An operation on the window, or the notification sent to the interface.
#[derive(Clone, Copy, Debug, PartialEq, Eq, Structural)]
pub enum WindowAction {
    Unmaximize,
    Maximize,
    SetSize(Size),
    SetPosition(Position),
    SetResizable(bool),
    SetAlwaysOnTop(bool),
    EmitMiniMode(bool),
}

/// A state is consistent when mini mode implies a remembered mini position.
pub open spec fn wf(s: WindowState) -> bool {
    s.is_mini_mode ==> s.has_mini_position
}

/// The initial state: not in mini mode, nothing remembered.
pub open spec fn initial_state() -> WindowState {
    WindowState {
        is_mini_mode: false,
        previous_width: 0,
        previous_height: 0,
        previous_x: 0,
        previous_y: 0,
        previous_resizable: false,
        mini_window_x: 0,
        mini_window_y: 0,
        has_mini_position: false,
    }
}

impl WindowState {
    /// The initial controller state.
    pub fn new() -> (s: Self)
        ensures
            s == initial_state(),
            wf(s),
    {
        WindowState {
            is_mini_mode: false,
            previous_width: 0,
            previous_height: 0,
            previous_x: 0,
            previous_y: 0,
            previous_resizable: false,
            mini_window_x: 0,
            mini_window_y: 0,
            has_mini_position: false,
        }
    }
}

/// A `bool` query result, with a fallback for a failed query.
pub open spec fn flag_or(b: Option<bool>, d: bool) -> bool {
    match b {
        Some(v) => v,
        None => d,
    }
}

/// `u32 as i32`: the same bits read as a signed number.
pub open spec fn as_signed(v: u32) -> int {
    if v <= 0x7fff_ffff {
        v as int
    } else {
        v - 0x1_0000_0000
    }
}

/// The bottom-right placement of a new mini window stays within `i32`.
pub open spec fn default_position_fits(monitor: Option<Size>) -> bool {
    match monitor {
        Some(m) => as_signed(m.width) - 440 >= i32::MIN && as_signed(m.height) - 290 >= i32::MIN,
        None => true,
    }
}

/// Where a mini window goes the first time: the bottom-right corner of the
/// monitor, or (100, 100) without one.
pub open spec fn default_mini_position(monitor: Option<Size>) -> Position {
    match monitor {
        Some(m) => Position {
            x: (as_signed(m.width) - 420 - 20) as i32,
            y: (as_signed(m.height) - 230 - 60) as i32,
        },
        None => Position { x: 100, y: 100 },
    }
}

/// The size of the mini window.
pub open spec fn mini_size() -> Size {
    Size { width: 420, height: 230 }
}

/// The geometry saved before the window changes shape: position and size,
/// when both could be read.
pub open spec fn save_geometry(s: WindowState, snap: WindowSnapshot) -> WindowState {
    match (snap.outer_position, snap.outer_size) {
        (Some(p), Some(z)) => WindowState {
            previous_x: p.x,
            previous_y: p.y,
            previous_width: z.width,
            previous_height: z.height,
            ..s
        },
        _ => s,
    }
}

/// The position a mini window is placed at on entering mini mode.
pub open spec fn mini_target(s: WindowState, snap: WindowSnapshot) -> Position {
    if s.has_mini_position {
        Position { x: s.mini_window_x, y: s.mini_window_y }
    } else {
        default_mini_position(snap.monitor_size)
    }
}

/// The operations that turn the window into the mini window at `pos`.
pub open spec fn enter_actions(was_maximized: bool, pos: Position) -> Seq<WindowAction> {
    let unmax: Seq<WindowAction> = if was_maximized {
        seq![WindowAction::Unmaximize]
    } else {
        seq![]
    };
    unmax + seq![
        WindowAction::SetSize(mini_size()),
        WindowAction::SetPosition(pos),
        WindowAction::SetResizable(false),
        WindowAction::SetAlwaysOnTop(true),
    ]
}

/// Entering mini mode.
pub open spec fn enter_mini(s: WindowState, snap: WindowSnapshot) -> (WindowState, Seq<WindowAction>) {
    let saved = match (snap.outer_position, snap.outer_size) {
        (Some(p), Some(z)) => WindowState {
            previous_resizable: flag_or(snap.is_resizable, true),
            ..save_geometry(s, snap)
        },
        _ => s,
    };
    let pos = mini_target(s, snap);
    (
        WindowState {
            mini_window_x: pos.x,
            mini_window_y: pos.y,
            has_mini_position: true,
            is_mini_mode: true,
            ..saved
        },
        enter_actions(flag_or(snap.is_maximized, false), pos),
    )
}

/// Leaving mini mode: the mini position is remembered and the saved
/// geometry restored.
pub open spec fn leave_mini(s: WindowState, snap: WindowSnapshot) -> (WindowState, Seq<WindowAction>) {
    let remembered = match snap.outer_position {
        Some(p) => WindowState { mini_window_x: p.x, mini_window_y: p.y, ..s },
        None => s,
    };
    (
        WindowState { is_mini_mode: false, ..remembered },
        seq![
            WindowAction::SetSize(Size { width: s.previous_width, height: s.previous_height }),
            WindowAction::SetPosition(Position { x: s.previous_x, y: s.previous_y }),
            WindowAction::SetResizable(s.previous_resizable),
            WindowAction::SetAlwaysOnTop(false),
        ],
    )
}

/// Switching mini mode on or off; a request for the current mode changes
/// nothing. The interface is notified in every case.
pub open spec fn mini_mode_step(s: WindowState, enable: bool, snap: WindowSnapshot) -> (
    WindowState,
    Seq<WindowAction>,
) {
    let r = if enable && !s.is_mini_mode {
        enter_mini(s, snap)
    } else if !enable && s.is_mini_mode {
        leave_mini(s, snap)
    } else {
        (s, Seq::<WindowAction>::empty())
    };
    (r.0, r.1.push(WindowAction::EmitMiniMode(enable)))
}

/// The inputs on which a mini-mode switch computes a placement that fits.
pub open spec fn mini_mode_defined(s: WindowState, enable: bool, snap: WindowSnapshot) -> bool {
    enable && !s.is_mini_mode && !s.has_mini_position ==> default_position_fits(snap.monitor_size)
}

/// Maximizing: from mini mode it returns to the normal window; a maximized
/// window is restored; otherwise the geometry is saved and the window
/// maximized.
pub open spec fn maximize_step(s: WindowState, snap: WindowSnapshot) -> (WindowState, Seq<WindowAction>) {
    if s.is_mini_mode {
        mini_mode_step(s, false, snap)
    } else if flag_or(snap.is_maximized, false) {
        (s, seq![WindowAction::Unmaximize])
    } else {
        (save_geometry(s, snap), seq![WindowAction::Maximize])
    }
}

/// `u32 as i32`.
fn to_signed(v: u32) -> (r: i32)
    ensures
        r == as_signed(v),
{
    if v <= 0x7fff_ffff {
        v as i32
    } else {
        ((v - 0x8000_0000) as i32) + i32::MIN
    }
}

/// Where a mini window goes the first time (bottom-right of the monitor).
pub fn get_default_mini_position(monitor: Option<Size>) -> (r: Position)
    requires
        default_position_fits(monitor),
    ensures
        r == default_mini_position(monitor),
{
    match monitor {
        Some(m) => Position {
            x: to_signed(m.width) - 420 - OFFSET_FROM_RIGHT,
            y: to_signed(m.height) - 230 - OFFSET_FROM_BOTTOM,
        },
        None => Position { x: 100, y: 100 },
    }
}

fn unwrap_flag(b: Option<bool>, d: bool) -> (r: bool)
    ensures
        r == flag_or(b, d),
{
    match b {
        Some(v) => v,
        None => d,
    }
}

/// Switches mini mode on (`enable`) or off.
pub fn set_mini_mode(state: &mut WindowState, enable: bool, snap: &WindowSnapshot) -> (actions: Vec<WindowAction>)
    requires
        mini_mode_defined(*old(state), enable, *snap),
    ensures
        (*final(state), actions@) == mini_mode_step(*old(state), enable, *snap),
{
    let mut actions: Vec<WindowAction> = Vec::new();
    if enable && !state.is_mini_mode {
        match (snap.outer_position, snap.outer_size) {
            (Some(p), Some(z)) => {
                state.previous_x = p.x;
                state.previous_y = p.y;
                state.previous_width = z.width;
                state.previous_height = z.height;
                state.previous_resizable = unwrap_flag(snap.is_resizable, true);
            },
            _ => {},
        }
        if unwrap_flag(snap.is_maximized, false) {
            actions.push(WindowAction::Unmaximize);
        }
        actions.push(WindowAction::SetSize(Size { width: MINI_WIDTH, height: MINI_HEIGHT }));
        let pos = if state.has_mini_position {
            Position { x: state.mini_window_x, y: state.mini_window_y }
        } else {
            get_default_mini_position(snap.monitor_size)
        };
        actions.push(WindowAction::SetPosition(pos));
        if !state.has_mini_position {
            state.mini_window_x = pos.x;
            state.mini_window_y = pos.y;
            state.has_mini_position = true;
        }
        actions.push(WindowAction::SetResizable(false));
        actions.push(WindowAction::SetAlwaysOnTop(true));
        state.is_mini_mode = true;
    } else if !enable && state.is_mini_mode {
        let restore_size = Size { width: state.previous_width, height: state.previous_height };
        let restore_position = Position { x: state.previous_x, y: state.previous_y };
        if let Some(p) = snap.outer_position {
            state.mini_window_x = p.x;
            state.mini_window_y = p.y;
        }
        actions.push(WindowAction::SetSize(restore_size));
        actions.push(WindowAction::SetPosition(restore_position));
        actions.push(WindowAction::SetResizable(state.previous_resizable));
        actions.push(WindowAction::SetAlwaysOnTop(false));
        state.is_mini_mode = false;
    }
    actions.push(WindowAction::EmitMiniMode(enable));
    proof {
        let expected = mini_mode_step(*old(state), enable, *snap);
        assert(actions@ =~= expected.1);
    }
    actions
}

/// Turns the window into the mini window.
pub fn minimize_window(state: &mut WindowState, snap: &WindowSnapshot) -> (actions: Vec<WindowAction>)
    requires
        mini_mode_defined(*old(state), true, *snap),
    ensures
        (*final(state), actions@) == mini_mode_step(*old(state), true, *snap),
{
    set_mini_mode(state, true, snap)
}

/// Maximizes the window, restores a maximized one, or leaves mini mode.
pub fn maximize_window(state: &mut WindowState, snap: &WindowSnapshot) -> (actions: Vec<WindowAction>)
    ensures
        (*final(state), actions@) == maximize_step(*old(state), *snap),
{
    if state.is_mini_mode {
        return set_mini_mode(state, false, snap);
    }
    let mut actions: Vec<WindowAction> = Vec::new();
    if unwrap_flag(snap.is_maximized, false) {
        actions.push(WindowAction::Unmaximize);
    } else {
        match (snap.outer_position, snap.outer_size) {
            (Some(p), Some(z)) => {
                state.previous_x = p.x;
                state.previous_y = p.y;
                state.previous_width = z.width;
                state.previous_height = z.height;
            },
            _ => {},
        }
        actions.push(WindowAction::Maximize);
    }
    proof {
        assert(actions@ =~= maximize_step(*old(state), *snap).1);
    }
    actions
}

/// Same as `maximize_window`.
pub fn toggle_maximize(state: &mut WindowState, snap: &WindowSnapshot) -> (actions: Vec<WindowAction>)
    ensures
        (*final(state), actions@) == maximize_step(*old(state), *snap),
{
    maximize_window(state, snap)
}

/// Restores the window when it is maximized.
pub fn restore_window(is_maximized: Option<bool>) -> (actions: Vec<WindowAction>)
    ensures
        actions@ == (if flag_or(is_maximized, false) {
            seq![WindowAction::Unmaximize]
        } else {
            Seq::<WindowAction>::empty()
        }),
{
    let mut actions: Vec<WindowAction> = Vec::new();
    if unwrap_flag(is_maximized, false) {
        actions.push(WindowAction::Unmaximize);
    }
    proof {
        assert(actions@ =~= (if flag_or(is_maximized, false) {
            seq![WindowAction::Unmaximize]
        } else {
            Seq::<WindowAction>::empty()
        }));
    }
    actions
}

/// Remembering where the mini window was dragged to.
pub open spec fn save_position_step(s: WindowState, position: Option<Position>) -> WindowState {
    match position {
        Some(p) => if s.is_mini_mode {
            WindowState { mini_window_x: p.x, mini_window_y: p.y, has_mini_position: true, ..s }
        } else {
            s
        },
        None => s,
    }
}

/// Remembers the mini window's current position (after a drag).
pub fn save_mini_window_position(state: &mut WindowState, position: Option<Position>)
    ensures
        *final(state) == save_position_step(*old(state), position),
{
    if let Some(p) = position {
        if state.is_mini_mode {
            state.mini_window_x = p.x;
            state.mini_window_y = p.y;
            state.has_mini_position = true;
        }
    }
}

/// Every command keeps the controller state consistent: in mini mode a
/// mini position is always remembered.
pub proof fn lemma_commands_keep_wf(s: WindowState, enable: bool, snap: WindowSnapshot, position: Option<Position>)
    requires
        wf(s),
    ensures
        wf(mini_mode_step(s, enable, snap).0),
        wf(maximize_step(s, snap).0),
        wf(save_position_step(s, position)),
{
}

/// Entering mini mode makes the window the mini window: 420 by 230 pixels,
/// not resizable, always on top, placed where the mini window was last
/// (bottom-right of the monitor the first time); the interface is told.
pub proof fn lemma_enter_mini_mode(s: WindowState, snap: WindowSnapshot)
    requires
        !s.is_mini_mode,
    ensures
        ({
            let (s1, acts) = mini_mode_step(s, true, snap);
            let pos = if s.has_mini_position {
                Position { x: s.mini_window_x, y: s.mini_window_y }
            } else {
                default_mini_position(snap.monitor_size)
            };
            &&& s1.is_mini_mode
            &&& s1.has_mini_position
            &&& s1.mini_window_x == pos.x && s1.mini_window_y == pos.y
            &&& acts.contains(WindowAction::SetSize(Size { width: 420, height: 230 }))
            &&& acts.contains(WindowAction::SetPosition(pos))
            &&& acts.contains(WindowAction::SetResizable(false))
            &&& acts.contains(WindowAction::SetAlwaysOnTop(true))
            &&& acts.last() == WindowAction::EmitMiniMode(true)
        }),
{
    let (s1, acts) = mini_mode_step(s, true, snap);
    let pos = mini_target(s, snap);
    let k: int = if flag_or(snap.is_maximized, false) { 1 } else { 0 };
    assert(acts[k] == WindowAction::SetSize(Size { width: 420, height: 230 }));
    assert(acts[k + 1] == WindowAction::SetPosition(pos));
    assert(acts[k + 2] == WindowAction::SetResizable(false));
    assert(acts[k + 3] == WindowAction::SetAlwaysOnTop(true));
}

/// Leaving mini mode right after entering it gives the window back the
/// size, position and resizability it had on entry, and takes it off the
/// top; the interface is told.
pub proof fn lemma_mini_mode_roundtrip(
    s: WindowState,
    snap_in: WindowSnapshot,
    snap_out: WindowSnapshot,
    p: Position,
    z: Size,
)
    requires
        !s.is_mini_mode,
        snap_in.outer_position == Some(p),
        snap_in.outer_size == Some(z),
    ensures
        ({
            let s1 = mini_mode_step(s, true, snap_in).0;
            let (s2, acts) = mini_mode_step(s1, false, snap_out);
            &&& !s2.is_mini_mode
            &&& acts == seq![
                WindowAction::SetSize(z),
                WindowAction::SetPosition(p),
                WindowAction::SetResizable(flag_or(snap_in.is_resizable, true)),
                WindowAction::SetAlwaysOnTop(false),
                WindowAction::EmitMiniMode(false),
            ]
        }),
{
    let s1 = mini_mode_step(s, true, snap_in).0;
    let (s2, acts) = mini_mode_step(s1, false, snap_out);
    assert(acts =~= seq![
        WindowAction::SetSize(z),
        WindowAction::SetPosition(p),
        WindowAction::SetResizable(flag_or(snap_in.is_resizable, true)),
        WindowAction::SetAlwaysOnTop(false),
        WindowAction::EmitMiniMode(false),
    ]);
}

/// The mini window comes back where it was: after leaving mini mode from
/// position `p`, entering it again places the mini window at `p`.
pub proof fn lemma_mini_position_remembered(
    s: WindowState,
    snap_out: WindowSnapshot,
    snap_in: WindowSnapshot,
    p: Position,
)
    requires
        wf(s),
        s.is_mini_mode,
        snap_out.outer_position == Some(p),
    ensures
        ({
            let s1 = mini_mode_step(s, false, snap_out).0;
            let (s2, acts) = mini_mode_step(s1, true, snap_in);
            &&& s2.is_mini_mode
            &&& s2.mini_window_x == p.x && s2.mini_window_y == p.y
            &&& acts == enter_actions(flag_or(snap_in.is_maximized, false), p).push(
                WindowAction::EmitMiniMode(true),
            )
        }),
{
}

/// Asking for the mode the window is already in changes nothing and only
/// notifies the interface.
pub proof fn lemma_same_mode_is_noop(s: WindowState, snap: WindowSnapshot)
    ensures
        mini_mode_step(s, s.is_mini_mode, snap) == (s, seq![WindowAction::EmitMiniMode(s.is_mini_mode)]),
{
    assert(mini_mode_step(s, s.is_mini_mode, snap).1 =~= seq![WindowAction::EmitMiniMode(s.is_mini_mode)]);
}

/// Maximizing in mini mode is leaving mini mode: the same state change and
/// the same window operations, which give back the size and position saved
/// on entry, take the window off the top and notify the interface.
pub proof fn lemma_maximize_in_mini_mode_leaves_it(s: WindowState, snap: WindowSnapshot)
    requires
        s.is_mini_mode,
    ensures
        maximize_step(s, snap) == mini_mode_step(s, false, snap),
        !maximize_step(s, snap).0.is_mini_mode,
        maximize_step(s, snap).1 == seq![
            WindowAction::SetSize(Size { width: s.previous_width, height: s.previous_height }),
            WindowAction::SetPosition(Position { x: s.previous_x, y: s.previous_y }),
            WindowAction::SetResizable(s.previous_resizable),
            WindowAction::SetAlwaysOnTop(false),
            WindowAction::EmitMiniMode(false),
        ],
{
    assert(maximize_step(s, snap).1 =~= seq![
        WindowAction::SetSize(Size { width: s.previous_width, height: s.previous_height }),
        WindowAction::SetPosition(Position { x: s.previous_x, y: s.previous_y }),
        WindowAction::SetResizable(s.previous_resizable),
        WindowAction::SetAlwaysOnTop(false),
        WindowAction::EmitMiniMode(false),
    ]);
}

/// Maximizing right after entering mini mode gives the window back the
/// size, position and resizability it had before mini mode.
pub proof fn lemma_maximize_after_mini_restores(
    s: WindowState,
    snap_in: WindowSnapshot,
    snap_out: WindowSnapshot,
    p: Position,
    z: Size,
)
    requires
        !s.is_mini_mode,
        snap_in.outer_position == Some(p),
        snap_in.outer_size == Some(z),
    ensures
        ({
            let s1 = mini_mode_step(s, true, snap_in).0;
            let (s2, acts) = maximize_step(s1, snap_out);
            &&& !s2.is_mini_mode
            &&& acts == seq![
                WindowAction::SetSize(z),
                WindowAction::SetPosition(p),
                WindowAction::SetResizable(flag_or(snap_in.is_resizable, true)),
                WindowAction::SetAlwaysOnTop(false),
                WindowAction::EmitMiniMode(false),
            ]
        }),
{
    let s1 = mini_mode_step(s, true, snap_in).0;
    lemma_maximize_in_mini_mode_leaves_it(s1, snap_out);
}

/// Outside mini mode, maximizing a maximized window only restores it, and
/// maximizing any other window saves its readable geometry and maximizes it.
pub proof fn lemma_maximize_outside_mini_mode(s: WindowState, snap: WindowSnapshot)
    requires
        !s.is_mini_mode,
    ensures
        snap.is_maximized == Some(true) ==> maximize_step(s, snap) == (s, seq![WindowAction::Unmaximize]),
        snap.is_maximized != Some(true) ==> maximize_step(s, snap).1 == seq![WindowAction::Maximize],
        (snap.is_maximized != Some(true) && snap.outer_position is Some && snap.outer_size is Some) ==> {
            let s2 = maximize_step(s, snap).0;
            &&& s2.previous_x == snap.outer_position->0.x && s2.previous_y == snap.outer_position->0.y
            &&& s2.previous_width == snap.outer_size->0.width
            &&& s2.previous_height == snap.outer_size->0.height
            &&& !s2.is_mini_mode
        },
{
}

} // verus!
