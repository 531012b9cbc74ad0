use eframe_template::shell::{CloseAction, CloseEvent, ShutdownGuard};
use eframe_template::windows::{
    AboutWindow, DebugWindow, LogViewer, SettingsWindow, UniqueWindows, WindowKind,
    WindowToggleButtonsLocations,
};
use eframe_template::Context;

fn visible(w: &UniqueWindows) -> Vec<bool> {
    (0..w.len()).map(|i| w.is_visible(i)).collect()
}

#[test]
fn registry_starts_hidden() {
    let w = UniqueWindows::default();
    assert_eq!(w.len(), 3);
    assert_eq!(visible(&w), vec![false, false, false]);
    assert!(w.show_open_windows().is_empty());
    assert_eq!(w.title(0), "About");
    assert_eq!(w.title(1), "Settings");
    assert_eq!(w.title(2), "Log viewer");
    assert_eq!(w.detail(1), Some("Open configuration window"));
    assert_eq!(w.detail(0), None);
}

#[test]
fn buttons_by_menu() {
    let w = UniqueWindows::new();
    assert_eq!(w.buttons(WindowToggleButtonsLocations::File), vec![1]);
    assert_eq!(w.buttons(WindowToggleButtonsLocations::Window), vec![2]);
    assert_eq!(w.buttons(WindowToggleButtonsLocations::Help), vec![0]);
}

#[test]
fn about_from_help_menu_is_the_only_open_window() {
    let mut w = UniqueWindows::new();
    assert!(w.toggle_buttons(WindowToggleButtonsLocations::Help, &vec![true]));
    let open = w.show_open_windows();
    assert_eq!(open.len(), 1);
    assert_eq!(w.title(open[0]), "About");
}

#[test]
fn toggle_without_click_changes_nothing() {
    let mut w = UniqueWindows::new();
    assert!(!w.toggle_buttons(WindowToggleButtonsLocations::File, &vec![false]));
    assert!(!w.toggle_buttons(WindowToggleButtonsLocations::Window, &vec![]));
    assert_eq!(visible(&w), vec![false, false, false]);
}

#[test]
fn toggling_twice_hides_again() {
    let mut w = UniqueWindows::new();
    assert!(w.toggle_buttons(WindowToggleButtonsLocations::File, &vec![true]));
    assert_eq!(visible(&w), vec![false, true, false]);
    assert_eq!(w.show_open_windows(), vec![1]);
    assert!(w.toggle_buttons(WindowToggleButtonsLocations::File, &vec![true]));
    assert_eq!(visible(&w), vec![false, false, false]);
}

#[test]
fn closing_chrome_clears_the_toggle() {
    let mut w = UniqueWindows::new();
    w.toggle_buttons(WindowToggleButtonsLocations::Window, &vec![true]);
    w.toggle_buttons(WindowToggleButtonsLocations::Help, &vec![true]);
    assert_eq!(w.show_open_windows(), vec![0, 2]);
    w.set_visible(2, false);
    assert!(!w.is_visible(2));
    assert_eq!(w.show_open_windows(), vec![0]);
}

#[test]
fn stale_registry_is_rebuilt() {
    let short = UniqueWindows {
        windows: vec![(WindowKind::About(AboutWindow::new()), true)],
    };
    let r = short.restored();
    assert_eq!(r.len(), 3);
    assert_eq!(visible(&r), vec![false, false, false]);

    let shuffled = UniqueWindows {
        windows: vec![
            (WindowKind::Settings(SettingsWindow::new()), true),
            (WindowKind::About(AboutWindow::new()), true),
            (WindowKind::LogViewer(LogViewer::new()), true),
        ],
    };
    assert!(!shuffled.is_complete());
    assert_eq!(visible(&shuffled.restored()), vec![false, false, false]);
}

#[test]
fn complete_registry_is_kept() {
    let mut w = UniqueWindows::new();
    w.set_visible(1, true);
    let r = w.restored();
    assert_eq!(visible(&r), vec![false, true, false]);
}

#[test]
fn collector_reaches_the_log_viewer() {
    let mut w = UniqueWindows::new();
    w.set_visible(2, true);
    w.set_collector(egui_tracing::EventCollector::new());
    assert!(matches!(w.windows[2].0, WindowKind::LogViewer(_)));
    assert_eq!(visible(&w), vec![false, false, true]);
}

#[test]
fn window_contents() {
    let mut cx = Context::new();
    let s = AboutWindow::new().ui(&mut cx);
    assert_eq!(s.len(), 5);
    assert_eq!(s[1].text, "egui");
    assert_eq!(SettingsWindow::new().ui(), "Settings:");
    assert_eq!(DebugWindow::new().ui(), "Debug");
    let k = WindowKind::Settings(SettingsWindow::new());
    assert_eq!(k.get_message(), "Settings");
    assert!(k.is_at(WindowToggleButtonsLocations::File));
    assert!(!k.is_at(WindowToggleButtonsLocations::Help));
    assert_eq!(k.index(), 1);
}

#[test]
fn two_requests_without_confirm_never_close() {
    let mut g = ShutdownGuard::new();
    assert_eq!(g.handle(CloseEvent::CloseRequested), CloseAction::CancelClose);
    assert_eq!(g.handle(CloseEvent::CloseRequested), CloseAction::CancelClose);
    assert!(g.confirm_close_modal_open);
    assert!(!g.shutdown_confirmed);
}

#[test]
fn confirm_after_cancels_closes_once() {
    let mut g = ShutdownGuard::new();
    let mut closes = 0;
    for _ in 0..3 {
        assert_eq!(g.handle(CloseEvent::CloseRequested), CloseAction::CancelClose);
        assert_eq!(g.handle(CloseEvent::Cancel), CloseAction::Nothing);
        assert!(!g.confirm_close_modal_open);
    }
    assert_eq!(g.handle(CloseEvent::CloseRequested), CloseAction::CancelClose);
    if g.handle(CloseEvent::Confirm) == CloseAction::Close {
        closes += 1;
    }
    assert_eq!(g.handle(CloseEvent::CloseRequested), CloseAction::Nothing);
    assert_eq!(g.handle(CloseEvent::Confirm), CloseAction::Nothing);
    assert_eq!(closes, 1);
    assert!(g.shutdown_confirmed);
}

#[test]
fn confirm_without_prompt_does_nothing() {
    let mut g = ShutdownGuard::new();
    assert_eq!(g.handle(CloseEvent::Confirm), CloseAction::Nothing);
    assert_eq!(g.handle(CloseEvent::Cancel), CloseAction::Nothing);
    assert!(!g.shutdown_confirmed);
}
