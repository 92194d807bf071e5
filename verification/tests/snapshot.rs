use hyprland_easyfocus::snapshot::{
    active_workspace, convert_clients, get_windows, keep_workspace, order_by_workspace,
    NO_WORKSPACE,
};
use hyprland_easyfocus::window::{Address, Client, FullscreenMode, Window};

fn client(own: &str, workspace: i32, focus_history_id: i8) -> Client {
    Client {
        address: Address::new(own.to_string()),
        at: (10, 20),
        size: (300, 200),
        workspace,
        fullscreen: FullscreenMode::Normal,
        title: format!("window {}", own),
        grouped: Vec::new(),
        focus_history_id,
    }
}

fn window(own: &str, workspace: i32) -> Window {
    Window::from(client(own, workspace, 1))
}

fn names(windows: &[Window]) -> Vec<String> {
    windows.iter().map(|w| w.address.as_str().to_string()).collect()
}

#[test]
fn a_client_becomes_a_window_with_the_same_fields() {
    let source = Client {
        address: Address::new("0xabc".to_string()),
        at: (-5, 7),
        size: (640, 480),
        workspace: 3,
        fullscreen: FullscreenMode::Maximized,
        title: "editor".to_string(),
        grouped: vec![Address::new("0xabc".to_string()), Address::new("0xdef".to_string())],
        focus_history_id: 2,
    };
    let win = Window::from(source);
    assert_eq!(
        win,
        Window {
            workspace: 3,
            title: "editor".to_string(),
            grouped: vec![Address::new("0xabc".to_string()), Address::new("0xdef".to_string())],
            address: Address::new("0xabc".to_string()),
            position: (-5, 7),
            size: (640, 480),
            is_current: false,
        }
    );
}

#[test]
fn the_window_that_leads_the_focus_history_is_current() {
    assert!(Window::from(client("0x1", 1, 0)).is_current);
    assert!(!Window::from(client("0x1", 1, 1)).is_current);
    assert!(!Window::from(client("0x1", 1, -1)).is_current);
}

#[test]
fn geometry_at_the_limits_of_the_client_is_kept() {
    let mut source = client("0x1", 1, 0);
    source.at = (i16::MIN, i16::MAX);
    source.size = (i16::MAX, i16::MIN);
    let win = Window::from(source);
    assert_eq!(win.position, (-32768, 32767));
    assert_eq!(win.size, (32767, -32768));
}

#[test]
fn without_an_active_window_no_workspace_is_known() {
    assert_eq!(NO_WORKSPACE, -1);
    assert_eq!(active_workspace(&None), -1);
    assert_eq!(active_workspace(&Some(client("0x1", 7, 0))), 7);
}

#[test]
fn convert_clients_keeps_the_order_of_the_list() {
    let windows = convert_clients(vec![client("0x1", 2, 1), client("0x2", 1, 0)]);
    assert_eq!(names(&windows), vec!["0x1", "0x2"]);
    assert_eq!(windows[1].is_current, true);
}

#[test]
fn keep_workspace_drops_the_windows_of_other_workspaces() {
    let windows =
        vec![window("0x1", 2), window("0x2", 1), window("0x3", 2), window("0x4", 3)];
    assert_eq!(names(&keep_workspace(windows, 2)), vec!["0x1", "0x3"]);
    assert!(keep_workspace(vec![window("0x1", 2)], 5).is_empty());
}

#[test]
fn the_active_workspace_comes_first_and_the_others_by_rising_id() {
    let windows = vec![
        window("0x1", 5),
        window("0x2", 2),
        window("0x3", 9),
        window("0x4", 1),
        window("0x5", 2),
        window("0x6", 5),
        window("0x7", 9),
    ];
    let ordered = order_by_workspace(windows, 5);
    assert_eq!(names(&ordered), vec!["0x1", "0x6", "0x4", "0x2", "0x5", "0x3", "0x7"]);
}

#[test]
fn windows_of_one_workspace_keep_their_order() {
    let windows = vec![
        window("0xc", 3),
        window("0xa", 3),
        window("0xb", 3),
        window("0xe", 1),
        window("0xd", 1),
    ];
    let ordered = order_by_workspace(windows, 7);
    assert_eq!(names(&ordered), vec!["0xe", "0xd", "0xc", "0xa", "0xb"]);
}

#[test]
fn negative_workspace_ids_sort_before_positive_ones() {
    let windows = vec![window("0x1", 4), window("0x2", -99), window("0x3", 1), window("0x4", 0)];
    let ordered = order_by_workspace(windows, 1);
    assert_eq!(names(&ordered), vec!["0x3", "0x2", "0x4", "0x1"]);
}

#[test]
fn the_lowest_workspace_id_still_follows_the_active_one() {
    let windows = vec![window("0x1", i32::MIN), window("0x2", i32::MAX), window("0x3", 0)];
    let ordered = order_by_workspace(windows, i32::MAX);
    assert_eq!(names(&ordered), vec!["0x2", "0x1", "0x3"]);
}

#[test]
fn ordering_keeps_every_window() {
    let windows: Vec<Window> =
        (0..20).map(|i| window(&format!("0x{}", i), (i * 7) % 4)).collect();
    let mut before = names(&windows);
    let mut after = names(&order_by_workspace(windows, 2));
    before.sort();
    after.sort();
    assert_eq!(before, after);
}

#[test]
fn snapshot_without_the_flag_holds_the_active_workspace_only() {
    let clients = vec![client("0x1", 1, 1), client("0x2", 2, 0), client("0x3", 2, 2)];
    let (windows, workspace) = get_windows(Some(client("0x2", 2, 0)), clients, false);
    assert_eq!(workspace, 2);
    assert_eq!(names(&windows), vec!["0x2", "0x3"]);
    assert!(windows[0].is_current);
    assert!(!windows[1].is_current);
}

#[test]
fn snapshot_with_the_flag_holds_every_window_in_overlay_order() {
    let clients = vec![
        client("0x1", 3, 3),
        client("0x2", 2, 0),
        client("0x3", 1, 2),
        client("0x4", 2, 1),
        client("0x5", 1, 4),
    ];
    let (windows, workspace) = get_windows(Some(client("0x2", 2, 0)), clients, true);
    assert_eq!(workspace, 2);
    assert_eq!(names(&windows), vec!["0x2", "0x4", "0x3", "0x5", "0x1"]);
}

#[test]
fn snapshot_without_an_active_window_uses_the_sentinel_workspace() {
    let clients = vec![client("0x1", 1, 1), client("0x2", -1, 0)];
    let (windows, workspace) = get_windows(None, clients, false);
    assert_eq!(workspace, -1);
    assert_eq!(names(&windows), vec!["0x2"]);
    let clients = vec![client("0x1", 2, 1), client("0x2", 1, 0)];
    let (windows, workspace) = get_windows(None, clients, true);
    assert_eq!(workspace, -1);
    assert_eq!(names(&windows), vec!["0x2", "0x1"]);
}

#[test]
fn snapshot_of_no_clients_is_empty() {
    let (windows, workspace) = get_windows(Some(client("0x1", 1, 0)), Vec::new(), true);
    assert_eq!(workspace, 1);
    assert!(windows.is_empty());
}
