use pet_repair::identity::{
    call_failed, classify, filetime_ticks, gate_acquired, is_codex_image, key_down,
    official_version, owner_version, point_inside, same_desktop, same_instance, same_rect, sorted_by_handle,
    Owner, Window, WindowKey,
};

#[test]
fn official_identity_requires_package_and_path() {
    let path = r"C:\Program Files\WindowsApps\OpenAI.Codex_26.901.1.0_x64__2p2nqsd0c76g0\app\ChatGPT.exe";
    assert_eq!(
        official_version(path, "OpenAI.Codex_2p2nqsd0c76g0").as_deref(),
        Some("26.901.1.0")
    );
    for (path, family) in [
        (path, "Other.App_2p2nqsd0c76g0"),
        (r"C:\Temp\app\ChatGPT.exe", "OpenAI.Codex_2p2nqsd0c76g0"),
        (
            r"C:\WindowsApps\OpenAI.Codex_1_x64\app\other.exe",
            "OpenAI.Codex_2p2nqsd0c76g0",
        ),
    ] {
        assert!(official_version(path, family).is_none());
    }
}

#[test]
fn official_version_is_lower_cased_and_ends_at_the_next_package_name() {
    let path = r"C:\WindowsApps\OpenAI.Codex_1.2BETA_x64\app\ChatGPT.EXE";
    assert_eq!(
        official_version(path, "OpenAI.Codex_2p2nqsd0c76g0").as_deref(),
        Some("1.2beta")
    );
    let path = r"C:\WindowsApps\OpenAI.Codex__x64\app\ChatGPT.exe";
    assert!(official_version(path, "OpenAI.Codex_2p2nqsd0c76g0").is_none());
    let path = r"C:\WindowsApps\OpenAI.Codex_7.0openai.codex_8\app\chatgpt.exe";
    assert_eq!(
        official_version(path, "OpenAI.Codex_2p2nqsd0c76g0").as_deref(),
        Some("7.0")
    );
}

fn owner(test: bool) -> Owner {
    Owner { pid: 4, start: 9, version: "1".into(), path: r"C:\A\ChatGPT.exe".into(), test }
}

#[test]
fn strict_classification() {
    let o = owner(false);
    let ok = classify(&o, 11, 4, true, "Chrome_WidgetWin_1", Some(0x800a8), Some([0, 0, 5, 5]));
    let w = ok.expect("classified");
    assert_eq!(w.hwnd, 11);
    assert_eq!(w.style, 0x800a8);
    assert_eq!(w.owner.pid, 4);
    assert!(classify(&o, 11, 5, true, "Chrome_WidgetWin_1", Some(0x800a8), Some([0, 0, 5, 5])).is_none());
    assert!(classify(&o, 11, 4, false, "Chrome_WidgetWin_1", Some(0x800a8), Some([0, 0, 5, 5])).is_none());
    assert!(classify(&o, 11, 4, true, "PetRepair.TestOverlay", Some(0x800a8), Some([0, 0, 5, 5])).is_none());
    assert!(classify(&o, 11, 4, true, "Chrome_WidgetWin_1", Some(0x000a8), Some([0, 0, 5, 5])).is_none());
    assert!(classify(&o, 11, 4, true, "Chrome_WidgetWin_1", None, Some([0, 0, 5, 5])).is_none());
    assert!(classify(&o, 11, 4, true, "Chrome_WidgetWin_1", Some(0x800a8), Some([5, 0, 5, 5])).is_none());
    assert!(classify(&o, 11, 4, true, "Chrome_WidgetWin_1", Some(0x800a8), None).is_none());
    let t = owner(true);
    assert!(classify(&t, 11, 4, true, "PetRepair.TestOverlay", Some(0x80088), Some([0, 0, 1, 1])).is_some());
}

#[test]
fn geometry_and_names() {
    assert!(point_inside(0, 0, &[0, 0, 1, 1]));
    assert!(!point_inside(1, 0, &[0, 0, 1, 1]));
    assert!(!point_inside(0, -1, &[0, 0, 1, 1]));
    assert!(is_codex_image("chatgpt.EXE"));
    assert!(!is_codex_image("ChatGPT.exe.bak"));
}

#[test]
fn same_instance_checks_pid_start_and_path() {
    let w = Window { hwnd: 1, owner: owner(false), rect: [0, 0, 2, 2], style: 0 };
    let mut now = owner(false);
    now.path = r"c:\a\chatgpt.exe".into();
    assert!(same_instance(&w, 4, Some(&now)));
    assert!(!same_instance(&w, 5, Some(&now)));
    now.start = 10;
    assert!(!same_instance(&w, 4, Some(&now)));
    assert!(!same_instance(&w, 4, None));
}

#[test]
fn windows_sorted_by_handle() {
    let mk = |h: usize| Window { hwnd: h, owner: owner(false), rect: [0, 0, 2, 2], style: 0 };
    let sorted = sorted_by_handle(vec![mk(30), mk(10), mk(20)]);
    let handles: Vec<usize> = sorted.iter().map(|w| w.hwnd).collect();
    assert_eq!(handles, [10, 20, 30]);
}

#[test]
fn system_values_are_read_exactly() {
    assert_eq!(filetime_ticks(0x01DA_2B3C, 0x4D5E_6F70), 0x01DA_2B3C_4D5E_6F70);
    assert_eq!(filetime_ticks(0, 7), 7);
    assert!(key_down(i16::MIN));
    assert!(key_down(-1));
    assert!(!key_down(1));
    assert!(!key_down(0));
    assert!(call_failed(true, 5));
    assert!(!call_failed(true, 0));
    assert!(!call_failed(false, 5));
    assert!(gate_acquired(0));
    assert!(gate_acquired(0x80));
    assert!(!gate_acquired(0x102));
    assert!(same_desktop("Default", "Default"));
    assert!(!same_desktop("Winlogon", "Default"));
    assert!(!same_desktop("", ""));
}

#[test]
fn window_keys_and_copies() {
    let w = Window {
        hwnd: 0x5a5a,
        owner: Owner { pid: 9, start: 44, version: "v".into(), path: "p".into(), test: false },
        rect: [1, 2, 3, 4],
        style: 0x80088,
    };
    assert_eq!(w.key(), WindowKey { pid: 9, start: 44, hwnd: 0x5a5a });
    let c = w.copied();
    assert_eq!((c.hwnd, c.rect, c.style), (w.hwnd, w.rect, w.style));
    assert_eq!(c.owner.version, "v");
    let o = w.owner.copied();
    assert_eq!((o.pid, o.start, o.path.as_str(), o.test), (9, 44, "p", false));
    assert!(same_rect(&[1, 2, 3, 4], &w.rect));
    assert!(!same_rect(&[1, 2, 3, 5], &w.rect));
}

#[test]
fn owners_are_identified_by_package_or_by_being_this_program() {
    let exe = r"C:\Tools\PetRepair.exe";
    assert_eq!(owner_version(true, r"c:\tools\petrepair.EXE", exe, None), Ok("synthetic".to_string()));
    assert_eq!(owner_version(true, r"C:\Other\PetRepair.exe", exe, None), Err("not_test_process"));
    let path = r"C:\Program Files\WindowsApps\OpenAI.Codex_26.901.1.0_x64__2p2nqsd0c76g0\app\ChatGPT.exe";
    let family = "OpenAI.Codex_2p2nqsd0c76g0";
    assert_eq!(owner_version(false, path, exe, Some(family)), Ok("26.901.1.0".to_string()));
    assert_eq!(owner_version(false, path, exe, None), Err("not_official_package"));
    assert_eq!(owner_version(false, path, exe, Some("Other.App_1")), Err("not_official_package"));
    assert_eq!(
        owner_version(false, r"C:\Temp\app\ChatGPT.exe", exe, Some(family)),
        Err("unsupported_path")
    );
}
