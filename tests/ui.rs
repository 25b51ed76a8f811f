use ttl::{loss_sparkline_string, sparkline_string, UiAction, UiKey, UiState};

#[test]
fn loss_sparkline_shows_last_width_ticks() {
    assert_eq!(loss_sparkline_string(&[], 5), "");
    assert_eq!(loss_sparkline_string(&[true, false, true], 10), "\u{2588}\u{d7}\u{2588}");
    assert_eq!(loss_sparkline_string(&[true, false, true, true], 2), "\u{2588}\u{2588}");
    assert_eq!(loss_sparkline_string(&[true], 0), "");
}

#[test]
fn rtt_sparkline_scales_between_extremes() {
    assert_eq!(sparkline_string(&[], 4), "");
    let data = [Some(1_000u64), None, Some(8_000), Some(4_500)];
    assert_eq!(sparkline_string(&data, 10), "\u{2581}\u{d7}\u{2588}\u{2585}");
    assert_eq!(sparkline_string(&data, 2), "\u{2588}\u{2585}");
    assert_eq!(sparkline_string(&[None, None, None], 2), "\u{d7}\u{d7}");
    assert_eq!(sparkline_string(&[Some(5), Some(5)], 4), "\u{2581}\u{2581}");
}

#[test]
fn keys_drive_selection_pause_and_overlays() {
    let mut ui = UiState::default();
    assert_eq!(ui.handle_key(UiKey::Down, 3, 0), UiAction::Nothing);
    assert_eq!(ui.selected, Some(0));
    ui.handle_key(UiKey::Up, 3, 0);
    assert_eq!(ui.selected, Some(2));
    ui.handle_key(UiKey::Char('j'), 3, 0);
    assert_eq!(ui.selected, Some(0));
    ui.handle_key(UiKey::Char('k'), 0, 0);
    assert_eq!(ui.selected, Some(0));
    ui.handle_key(UiKey::Enter, 3, 0);
    assert!(ui.show_hop_detail);
    assert_eq!(ui.handle_key(UiKey::Char('q'), 3, 0), UiAction::Nothing);
    assert!(ui.show_hop_detail);
    ui.handle_key(UiKey::Esc, 3, 0);
    assert!(!ui.show_hop_detail);
    ui.handle_key(UiKey::Esc, 3, 0);
    assert_eq!(ui.selected, None);
    assert_eq!(ui.handle_key(UiKey::Char('p'), 3, 42), UiAction::SetPaused(true));
    assert_eq!(ui.status_message, Some(("Paused".to_string(), 42)));
    assert_eq!(ui.handle_key(UiKey::Char('p'), 3, 43), UiAction::SetPaused(false));
    assert_eq!(ui.status_message.as_ref().unwrap().0, "Resumed");
    ui.handle_key(UiKey::Char('?'), 3, 0);
    assert!(ui.show_help);
    assert_eq!(ui.handle_key(UiKey::Char('e'), 3, 0), UiAction::Nothing);
    assert!(!ui.show_help);
    assert_eq!(ui.handle_key(UiKey::Char('e'), 3, 0), UiAction::Export);
    assert_eq!(ui.handle_key(UiKey::Char('q'), 3, 0), UiAction::Quit);
}

#[test]
fn status_message_expires_after_three_seconds() {
    let mut ui = UiState::default();
    ui.set_status_at("hello".to_string(), 1_000_000);
    ui.clear_old_status_at(4_000_000);
    assert!(ui.status_message.is_some());
    ui.clear_old_status_at(4_000_001);
    assert!(ui.status_message.is_none());
    ui.set_status("now".to_string());
    ui.clear_old_status();
    assert_eq!(ui.status_message.as_ref().unwrap().0, "now");
}

