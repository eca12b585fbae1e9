use purgedisk::audit::entry::{LogEntry, LogStatus};
use purgedisk::device::Device;
use purgedisk::tui::app::{App, AppCommand, Key, Screen};

fn device(path: &str, serial: &str) -> Device {
    Device {
        path: path.to_string(),
        volume_paths: vec![],
        model: "Stick".to_string(),
        serial: serial.to_string(),
        size_bytes: 1 << 30,
        removable: true,
        bus_type: "USB".to_string(),
        is_system: false,
    }
}

fn entry(ts: &str) -> LogEntry {
    LogEntry {
        timestamp: ts.to_string(),
        operator: "alice".to_string(),
        hostname: "lab".to_string(),
        device_serial: "S".to_string(),
        device_path: "/dev/sdb".to_string(),
        device_size_bytes: 1,
        algorithm: "DoD 5220.22-M (3 轮)".to_string(),
        pass_number: 0,
        pass_pattern: String::new(),
        status: LogStatus::Completed,
        error_detail: None,
        hmac_signature: String::new(),
    }
}

fn loaded_app() -> App {
    let mut app = App::new("/tmp/logs");
    app.set_devices(vec![device("/dev/sdb", "SER-1"), device("/dev/sdc", "SER-2")]);
    app
}

#[test]
fn new_app_waits_for_the_scan() {
    let app = App::new("/tmp/logs");
    assert_eq!(app.screen, Screen::Home);
    assert!(!app.devices_loaded);
    assert!(!app.should_quit);
    assert_eq!(app.log_dir, "/tmp/logs");
    assert!(app.selected_device().is_none());
}

#[test]
fn enter_before_the_scan_does_nothing() {
    let mut app = App::new("/tmp/logs");
    assert_eq!(app.handle_key(Key::Enter), AppCommand::Nothing);
    assert_eq!(app.screen, Screen::Home);
}

#[test]
fn selection_moves_within_the_list() {
    let mut app = loaded_app();
    app.handle_key(Key::Up);
    assert_eq!(app.selected_device, 0);
    app.handle_key(Key::Down);
    assert_eq!(app.selected_device, 1);
    app.handle_key(Key::Char('j'));
    assert_eq!(app.selected_device, 1);
    app.handle_key(Key::Char('k'));
    assert_eq!(app.selected_device, 0);
    assert_eq!(app.selected_device().unwrap().serial, "SER-1");
}

#[test]
fn wipe_starts_only_after_the_right_serial() {
    let mut app = loaded_app();
    app.handle_key(Key::Down);
    app.handle_key(Key::Enter);
    assert_eq!(app.screen, Screen::Confirm);
    for c in "SER-1".chars() {
        app.handle_key(Key::Char(c));
    }
    assert_eq!(app.handle_key(Key::Enter), AppCommand::Nothing);
    assert_eq!(app.confirm_error, Some("序列号不匹配，请重新输入。".to_string()));
    app.handle_key(Key::Backspace);
    assert_eq!(app.confirm_input, "SER-");
    assert_eq!(app.confirm_error, None);
    app.handle_key(Key::Char('2'));
    app.handle_key(Key::Char(' '));
    assert_eq!(app.handle_key(Key::Enter), AppCommand::StartWipe);
    app.wipe_started();
    assert_eq!(app.screen, Screen::Progress);
}

#[test]
fn escape_leaves_the_confirmation() {
    let mut app = loaded_app();
    app.handle_key(Key::Enter);
    app.handle_key(Key::Char('x'));
    app.handle_key(Key::Esc);
    assert_eq!(app.screen, Screen::Home);
    assert_eq!(app.confirm_input, "");
}

#[test]
fn progress_screen_only_cancels() {
    let mut app = loaded_app();
    app.wipe_started();
    assert_eq!(app.handle_key(Key::Char('q')), AppCommand::Nothing);
    assert!(!app.should_quit);
    assert_eq!(app.handle_key(Key::Esc), AppCommand::CancelWipe);
    assert_eq!(app.handle_key(Key::Char('c')), AppCommand::CancelWipe);
    assert_eq!(app.screen, Screen::Progress);
    app.wipe_finished();
    assert_eq!(app.screen, Screen::Result);
    assert_eq!(app.handle_key(Key::Enter), AppCommand::DismissResult);
    assert_eq!(app.screen, Screen::Home);
}

#[test]
fn failed_start_shows_the_reason() {
    let mut app = loaded_app();
    app.wipe_failed("打开设备失败: x".to_string());
    assert_eq!(app.screen, Screen::Result);
    assert_eq!(app.wipe_error, Some("打开设备失败: x".to_string()));
    app.handle_key(Key::Char('q'));
    assert_eq!(app.wipe_error, None);
}

#[test]
fn logs_load_once_and_scroll_within_the_list() {
    let mut app = loaded_app();
    assert_eq!(app.handle_key(Key::Char('l')), AppCommand::LoadLogs);
    assert_eq!(app.screen, Screen::Logs);
    app.receive_logs(Some(vec![entry("3"), entry("2"), entry("1")]));
    assert!(app.logs_loaded);
    app.handle_key(Key::End);
    assert_eq!(app.log_scroll, 2);
    app.handle_key(Key::Down);
    assert_eq!(app.log_scroll, 2);
    app.handle_key(Key::Up);
    assert_eq!(app.log_scroll, 1);
    app.handle_key(Key::Home);
    assert_eq!(app.log_scroll, 0);
    app.handle_key(Key::Up);
    assert_eq!(app.log_scroll, 0);
    app.handle_key(Key::Esc);
    assert_eq!(app.screen, Screen::Home);
    assert_eq!(app.handle_key(Key::Char('l')), AppCommand::Nothing);
}

#[test]
fn a_lost_log_loader_still_ends_the_loading() {
    let mut app = loaded_app();
    app.handle_key(Key::Char('l'));
    app.receive_logs(None);
    assert!(app.logs_loaded);
    assert!(app.log_entries.is_empty());
}

#[test]
fn refresh_and_quit() {
    let mut app = loaded_app();
    app.handle_key(Key::Down);
    app.handle_key(Key::Char('r'));
    assert!(!app.devices_loaded);
    assert!(app.devices.is_empty());
    assert_eq!(app.selected_device, 0);
    app.set_device_error("扫描失败".to_string());
    assert!(app.devices_loaded);
    assert_eq!(app.device_error, Some("扫描失败".to_string()));
    app.handle_key(Key::Char('q'));
    assert!(app.should_quit);
}

#[test]
fn backspace_takes_back_the_last_typed_character() {
    let mut app = loaded_app();
    app.handle_key(Key::Enter);
    app.handle_key(Key::Char('S'));
    let before = app.confirm_input.clone();
    app.handle_key(Key::Char('x'));
    app.handle_key(Key::Backspace);
    assert_eq!(app.confirm_input, before);
    assert_eq!(app.confirm_error, None);
    assert_eq!(app.screen, Screen::Confirm);
}
