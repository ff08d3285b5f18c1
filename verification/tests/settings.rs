use pet_repair::settings::{
    autostart_command, log_entry, log_needs_rotation, registry_failed, timestamp, LocalTime,
    settings_after_save, toggle, Settings, Switch,
};

#[test]
fn confirming_version_preserves_automatic_preference_across_reload() {
    for automatic in [false, true] {
        let mut settings = Settings {
            automatic,
            tray_only: false,
            look_at_mouse: true,
            verified_versions: vec![],
        };
        settings.confirm_version("1.2.3.0");
        settings.confirm_version("1.2.3.0");
        assert_eq!(settings.automatic, automatic);
        assert!(settings.look_at_mouse);
        assert_eq!(settings.verified_versions, ["1.2.3.0"]);
        assert!(settings.is_verified("1.2.3.0"));
        assert!(!settings.is_verified("1.2.3"));
    }
}

#[test]
fn timestamps_and_log_entries() {
    let t = LocalTime { year: 2024, month: 5, day: 1, hour: 9, minute: 3, second: 7 };
    assert_eq!(timestamp(t, -480, false, -60, 0), "2024-05-01 09:03:07 +08:00");
    assert_eq!(timestamp(t, 300, true, -60, 0), "2024-05-01 09:03:07 -04:00");
    assert_eq!(timestamp(t, -345, false, 0, 0), "2024-05-01 09:03:07 +05:45");
    assert_eq!(
        log_entry("T", "REPAIR_FAILED", Some("7-0001"), "失败", "细节"),
        "T  [错误] 失败\n事件编号：REPAIR_FAILED · 修复编号：7-0001\n细节\n"
    );
    assert_eq!(log_entry("T", "APP_DIAGNOSTIC", None, "诊断", "d"), "T  [记录] 诊断\n事件编号：APP_DIAGNOSTIC\nd\n");
    assert!(log_needs_rotation(1_000_001) && !log_needs_rotation(1_000_000));
    assert_eq!(autostart_command(r"C:\x\PetRepair.exe"), "\"C:\\x\\PetRepair.exe\" --tray");
    assert!(!registry_failed(0) && !registry_failed(2) && registry_failed(5));
}

#[test]
fn switches_are_saved_apart_and_kept_only_when_saved() {
    let base = Settings { automatic: false, tray_only: false, look_at_mouse: false, verified_versions: vec!["1".into()] };
    let mut after = base.clone();
    toggle(&mut after, Switch::LookAtMouse);
    assert!(after.look_at_mouse && !after.automatic && !after.tray_only);
    assert_eq!(after.verified_versions, ["1"]);
    toggle(&mut after, Switch::Automatic);
    toggle(&mut after, Switch::TrayOnly);
    assert!(after.automatic && after.tray_only && after.look_at_mouse);
    let kept = settings_after_save(base.clone(), after.clone(), true);
    assert!(kept.look_at_mouse && kept.automatic);
    let back = settings_after_save(base, after, false);
    assert!(!back.look_at_mouse && !back.automatic && !back.tray_only);
}
