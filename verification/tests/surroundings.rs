use dns_manager::auto_startup::{join_path, AutoStartupManager};
use dns_manager::error::DnsError;
use dns_manager::notifications::{format_millis, NotificationManager};
use dns_manager::settings::AppSettings;
use dns_manager::tray::{create_simple_icon, event_for_menu_item, TrayEvent};

#[test]
fn every_error_has_its_line() {
    assert_eq!(DnsError::InvalidIpAddress("x y".to_string()).to_message(), "Invalid IP address: x y");
    assert_eq!(
        DnsError::CommandFailed { command: "netsh".to_string(), stderr: "bad".to_string() }.to_message(),
        "Command 'netsh' failed: bad"
    );
    assert_eq!(DnsError::AdapterNotFound.to_message(), "Network adapter not found");
    assert_eq!(DnsError::PermissionDenied.to_message(), "Permission denied. Please run as administrator.");
    assert_eq!(DnsError::Timeout.to_message(), "Operation timed out");
    assert_eq!(DnsError::ParseError("eof".to_string()).to_message(), "Parse error: eof");
    assert_eq!(DnsError::Other("plain".to_string()).to_message(), "plain");
}

#[test]
fn notices_say_what_changed() {
    let manager = NotificationManager::new();
    assert!(!manager.is_silent());
    let n = manager.send_dns_change_notification("Google", "8.8.8.8", "8.8.4.4").unwrap();
    assert_eq!(n.title, "DNS изменен");
    assert_eq!(n.text, "Установлен: Google (8.8.8.8, 8.8.4.4)");
    let n = manager.send_dns_change_notification("Solo", "9.9.9.9", "").unwrap();
    assert_eq!(n.text, "Установлен: Solo (9.9.9.9)");
    let n = manager.send_scheduler_notification("Quad9").unwrap();
    assert_eq!(n.title, "Планировщик DNS");
    assert_eq!(n.text, "Автопереключение на: Quad9");
    let n = manager.send_speed_test_complete_notification("Cloudflare", 15_000_000).unwrap();
    assert_eq!(n.title, "Тест скорости завершен");
    assert_eq!(n.text, "Быстрейший: Cloudflare (15.0ms)");
}

#[test]
fn a_silent_manager_sends_nothing() {
    let mut manager = NotificationManager::new();
    manager.set_silent_mode(true);
    assert!(manager.is_silent());
    assert!(manager.send_dns_change_notification("Google", "8.8.8.8", "8.8.4.4").is_none());
    assert!(manager.send_scheduler_notification("Quad9").is_none());
    assert!(manager.send_speed_test_complete_notification("x", 1).is_none());
    manager.set_silent_mode(false);
    assert!(!manager.is_silent());
    assert!(manager.send_scheduler_notification("Quad9").is_some());
}

#[test]
fn milliseconds_with_one_digit_after_the_point() {
    let text = |n: u64| -> String { format_millis(n).into_iter().collect() };
    assert_eq!(text(0), "0.0");
    assert_eq!(text(49_999), "0.0");
    assert_eq!(text(50_000), "0.0");
    assert_eq!(text(50_001), "0.1");
    assert_eq!(text(150_000), "0.2");
    assert_eq!(text(250_000), "0.2");
    assert_eq!(text(12_345_678), "12.3");
    assert_eq!(text(12_350_000), "12.4");
    assert_eq!(text(999_950_000), "1000.0");
    assert_eq!(text(u64::MAX), "18446744073709.6");
}

#[test]
fn the_settings_of_a_first_start() {
    let s = AppSettings::default();
    assert!(!s.tray_enabled);
    assert!(s.window_visible);
    assert!(!s.silent_mode);
    assert!(!s.scheduler_enabled);
    assert_eq!(s.scheduler_interval, 60);
    assert!(s.theme_dark);
    assert!(!s.theme_custom_colors);
    assert_eq!(s.theme_primary, [147, 51, 234]);
    assert_eq!(s.theme_secondary, [59, 130, 246]);
    assert_eq!(s.theme_accent, [6, 182, 212]);
    assert!(s.hotkeys_enabled);
    assert!(!s.auto_startup_enabled);
}

#[test]
fn stored_settings_win_over_the_defaults() {
    let mut stored = AppSettings::default();
    stored.scheduler_interval = 5;
    stored.silent_mode = true;
    let loaded = AppSettings::load(Some(stored));
    assert_eq!(loaded.scheduler_interval, 5);
    assert!(loaded.silent_mode);
    let fresh = AppSettings::load(None);
    assert_eq!(fresh.scheduler_interval, 60);
    assert!(!fresh.silent_mode);
}

#[test]
fn the_startup_folder_lies_below_the_application_data() {
    let appdata = "C:\\Users\\me\\AppData\\Roaming";
    assert_eq!(
        AutoStartupManager::get_startup_path(Some(appdata)).unwrap(),
        "C:\\Users\\me\\AppData\\Roaming\\Microsoft\\Windows\\Start Menu\\Programs\\Startup"
    );
    assert_eq!(
        AutoStartupManager::shortcut_path(Some("D:\\")).unwrap(),
        "D:\\Microsoft\\Windows\\Start Menu\\Programs\\Startup\\DNS Manager.lnk"
    );
    assert_eq!(
        AutoStartupManager::get_startup_path(None).unwrap_err(),
        "Auto-startup is only supported on Windows"
    );
    let joined: String = join_path(&Vec::new(), "x").into_iter().collect();
    assert_eq!(joined, "x");
    let joined: String = join_path(&"a/".chars().collect(), "x").into_iter().collect();
    assert_eq!(joined, "a/x");
}

#[test]
fn start_with_the_session_on_and_off() {
    let appdata = Some("C:\\A");
    assert!(AutoStartupManager::is_enabled(appdata, true));
    assert!(!AutoStartupManager::is_enabled(appdata, false));
    assert!(!AutoStartupManager::is_enabled(None, true));
    assert_eq!(
        AutoStartupManager::enable(appdata, "C:\\P\\dns.exe", "C:\\P").unwrap(),
        "$ws = New-Object -ComObject WScript.Shell; $s = $ws.CreateShortcut('C:\\A\\Microsoft\\Windows\\Start Menu\\Programs\\Startup\\DNS Manager.lnk'); $s.TargetPath = 'C:\\P\\dns.exe'; $s.WorkingDirectory = 'C:\\P'; $s.Description = 'DNS Manager - Background Agent'; $s.Save()"
    );
    assert_eq!(
        AutoStartupManager::enable(None, "x", "y").unwrap_err(),
        "Auto-startup is only supported on Windows"
    );
    assert_eq!(
        AutoStartupManager::disable(appdata, true).unwrap().unwrap(),
        "C:\\A\\Microsoft\\Windows\\Start Menu\\Programs\\Startup\\DNS Manager.lnk"
    );
    assert_eq!(AutoStartupManager::disable(appdata, false).unwrap(), None);
    assert_eq!(
        AutoStartupManager::disable(None, true).unwrap_err(),
        "Auto-startup is only supported on Windows"
    );
}

#[test]
fn the_icon_is_a_blue_disc() {
    let rgba = create_simple_icon();
    assert_eq!(rgba.len(), 16 * 16 * 4);
    let pixel = |x: usize, y: usize| -> [u8; 4] {
        let i = (y * 16 + x) * 4;
        [rgba[i], rgba[i + 1], rgba[i + 2], rgba[i + 3]]
    };
    assert_eq!(pixel(8, 8), [59, 130, 246, 255]);
    assert_eq!(pixel(3, 8), [59, 130, 246, 255]);
    assert_eq!(pixel(2, 8), [0, 0, 0, 0]);
    assert_eq!(pixel(13, 8), [59, 130, 246, 255]);
    assert_eq!(pixel(14, 8), [0, 0, 0, 0]);
    assert_eq!(pixel(4, 4), [59, 130, 246, 255]);
    assert_eq!(pixel(3, 4), [0, 0, 0, 0]);
    assert_eq!(pixel(0, 0), [0, 0, 0, 0]);
    assert_eq!(pixel(15, 15), [0, 0, 0, 0]);
    let mut inside = 0;
    for y in 0..16 {
        for x in 0..16 {
            let dx = x as f32 - 8.0;
            let dy = y as f32 - 8.0;
            let expected = (dx * dx + dy * dy).sqrt() < 6.0;
            assert_eq!(pixel(x, y)[3] == 255, expected);
            if expected {
                inside += 1;
            }
        }
    }
    assert_eq!(inside, 109);
}

#[test]
fn menu_items_stand_for_events() {
    assert_eq!(event_for_menu_item("1", "1", "2", "3"), Some(TrayEvent::Show));
    assert_eq!(event_for_menu_item("2", "1", "2", "3"), Some(TrayEvent::Hide));
    assert_eq!(event_for_menu_item("3", "1", "2", "3"), Some(TrayEvent::Quit));
    assert_eq!(event_for_menu_item("4", "1", "2", "3"), None);
    assert_eq!(event_for_menu_item("x", "x", "x", "x"), Some(TrayEvent::Show));
}
