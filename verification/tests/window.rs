use std::collections::HashSet;

use hyprland_easyfocus::config::{AppConfig, Position};
use hyprland_easyfocus::window::{Address, Client, FullscreenMode, Window};

#[test]
fn an_address_keeps_its_text() {
    let address = Address::new("0x55d5c8a0b1c0".to_string());
    assert_eq!(address.as_str(), "0x55d5c8a0b1c0");
    assert_eq!(Address::new(String::new()).as_str(), "");
}

#[test]
fn addresses_are_equal_exactly_when_their_texts_are() {
    assert_eq!(Address::new("0x1".to_string()), Address::new("0x1".to_string()));
    assert_ne!(Address::new("0x1".to_string()), Address::new("0x2".to_string()));
    assert_ne!(Address::new("0x1".to_string()), Address::new("0X1".to_string()));
    assert_ne!(Address::new("0x1".to_string()), Address::new("0x10".to_string()));
}

#[test]
fn a_cloned_address_is_the_same_address() {
    let address = Address::new("0xabc".to_string());
    assert_eq!(address.clone(), address);
}

#[test]
fn equal_addresses_hash_alike() {
    let mut seen = HashSet::new();
    assert!(seen.insert(Address::new("0x1".to_string())));
    assert!(!seen.insert(Address::new("0x1".to_string())));
    assert!(seen.insert(Address::new("0x2".to_string())));
}

#[test]
fn a_cloned_window_has_the_same_fields() {
    let win = Window {
        workspace: 4,
        title: "mail".to_string(),
        grouped: vec![Address::new("0x1".to_string()), Address::new("0x2".to_string())],
        address: Address::new("0x2".to_string()),
        position: (-10, 20),
        size: (800, 600),
        is_current: true,
    };
    assert_eq!(win.clone(), win);
}

#[test]
fn a_cloned_client_has_the_same_fields() {
    let client = Client {
        address: Address::new("0x2".to_string()),
        at: (-10, 20),
        size: (800, 600),
        workspace: 4,
        fullscreen: FullscreenMode::Fullscreen,
        title: "mail".to_string(),
        grouped: vec![Address::new("0x1".to_string()), Address::new("0x2".to_string())],
        focus_history_id: 3,
    };
    assert_eq!(client.clone(), client);
}

#[test]
fn cloned_settings_are_the_same_settings() {
    let config = AppConfig {
        labels: "fjdk".to_string(),
        cycle_before: 2,
        label_position: Position::BottomRight,
        box_size: 25,
        ignore_current: true,
        dim_inactive: false,
        workspace_label_width: 40,
        ignore_workspace: true,
    };
    assert_eq!(config.clone(), config);
}
