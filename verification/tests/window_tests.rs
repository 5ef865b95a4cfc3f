use pulse_player::window::{
    WindowState, WindowSnapshot, WindowAction, Position, Size, set_mini_mode, maximize_window,
    minimize_window, toggle_maximize, restore_window, save_mini_window_position,
    get_default_mini_position,
};

fn snap(pos: Option<(i32, i32)>, size: Option<(u32, u32)>, maximized: bool) -> WindowSnapshot {
    WindowSnapshot {
        outer_position: pos.map(|(x, y)| Position { x, y }),
        outer_size: size.map(|(width, height)| Size { width, height }),
        is_resizable: Some(true),
        is_maximized: Some(maximized),
        monitor_size: Some(Size { width: 1920, height: 1080 }),
    }
}

#[test]
fn first_mini_mode_goes_bottom_right() {
    let mut s = WindowState::new();
    let acts = set_mini_mode(&mut s, true, &snap(Some((10, 20)), Some((800, 600)), false));
    assert_eq!(
        acts,
        vec![
            WindowAction::SetSize(Size { width: 420, height: 230 }),
            WindowAction::SetPosition(Position { x: 1480, y: 790 }),
            WindowAction::SetResizable(false),
            WindowAction::SetAlwaysOnTop(true),
            WindowAction::EmitMiniMode(true),
        ]
    );
    assert!(s.is_mini_mode && s.has_mini_position);
    assert_eq!((s.previous_x, s.previous_y, s.previous_width, s.previous_height), (10, 20, 800, 600));
}

#[test]
fn maximized_window_is_unmaximized_first() {
    let mut s = WindowState::new();
    let acts = minimize_window(&mut s, &snap(Some((0, 0)), Some((1920, 1080)), true));
    assert_eq!(acts[0], WindowAction::Unmaximize);
    assert_eq!(acts.len(), 6);
}

#[test]
fn leaving_mini_mode_restores_geometry() {
    let mut s = WindowState::new();
    set_mini_mode(&mut s, true, &snap(Some((10, 20)), Some((800, 600)), false));
    let acts = set_mini_mode(&mut s, false, &snap(Some((1400, 700)), Some((420, 230)), false));
    assert_eq!(
        acts,
        vec![
            WindowAction::SetSize(Size { width: 800, height: 600 }),
            WindowAction::SetPosition(Position { x: 10, y: 20 }),
            WindowAction::SetResizable(true),
            WindowAction::SetAlwaysOnTop(false),
            WindowAction::EmitMiniMode(false),
        ]
    );
    assert!(!s.is_mini_mode);
    assert_eq!((s.mini_window_x, s.mini_window_y), (1400, 700));
}

#[test]
fn mini_window_returns_where_it_was() {
    let mut s = WindowState::new();
    set_mini_mode(&mut s, true, &snap(Some((10, 20)), Some((800, 600)), false));
    save_mini_window_position(&mut s, Some(Position { x: 33, y: 44 }));
    set_mini_mode(&mut s, false, &snap(None, None, false));
    let acts = set_mini_mode(&mut s, true, &snap(Some((5, 5)), Some((640, 480)), false));
    assert_eq!(acts[1], WindowAction::SetPosition(Position { x: 33, y: 44 }));
}

#[test]
fn same_mode_only_notifies() {
    let mut s = WindowState::new();
    let before = s;
    let acts = set_mini_mode(&mut s, false, &snap(None, None, false));
    assert_eq!(acts, vec![WindowAction::EmitMiniMode(false)]);
    assert_eq!(s, before);
}

#[test]
fn maximize_toggles() {
    let mut s = WindowState::new();
    let acts = maximize_window(&mut s, &snap(Some((1, 2)), Some((300, 200)), false));
    assert_eq!(acts, vec![WindowAction::Maximize]);
    assert_eq!((s.previous_x, s.previous_y, s.previous_width, s.previous_height), (1, 2, 300, 200));
    let acts = toggle_maximize(&mut s, &snap(Some((0, 0)), Some((1920, 1080)), true));
    assert_eq!(acts, vec![WindowAction::Unmaximize]);
}

#[test]
fn maximize_in_mini_mode_leaves_it() {
    let mut s = WindowState::new();
    set_mini_mode(&mut s, true, &snap(Some((10, 20)), Some((800, 600)), false));
    let acts = maximize_window(&mut s, &snap(Some((100, 100)), Some((420, 230)), false));
    assert_eq!(acts.last(), Some(&WindowAction::EmitMiniMode(false)));
    assert!(!s.is_mini_mode);
}

#[test]
fn restore_only_when_maximized() {
    assert_eq!(restore_window(Some(true)), vec![WindowAction::Unmaximize]);
    assert!(restore_window(Some(false)).is_empty());
    assert!(restore_window(None).is_empty());
}

#[test]
fn saving_position_outside_mini_mode_does_nothing() {
    let mut s = WindowState::new();
    let before = s;
    save_mini_window_position(&mut s, Some(Position { x: 1, y: 1 }));
    assert_eq!(s, before);
}

#[test]
fn default_position_without_monitor() {
    assert_eq!(get_default_mini_position(None), Position { x: 100, y: 100 });
    assert_eq!(
        get_default_mini_position(Some(Size { width: 3_000_000_000, height: 10 })),
        Position { x: (3_000_000_000u32 as i32) - 440, y: -280 }
    );
}
