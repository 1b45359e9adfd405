use cubera::auth::{
    active_account, insert_uuid_dashes, offline_account, offline_uuid, online_account, poll_step,
    register_account, remove_account, rps_ticket, set_active_account, xbox_identity_token,
    xsts_hint, PollStep,
};
use cubera::branding::{
    clear_incompatible_pack, dock_icon_candidates, enable_pack_in_options, first_present,
    macos_dock_jvm_args, options_with_cubera_pack, resource_pack_files, resource_pack_path,
};
use cubera::paths::{fallback_settings, Account};

fn acc(uuid: &str, name: &str) -> Account {
    Account {
        uuid: uuid.to_string(),
        name: name.to_string(),
        access_token: "t".to_string(),
        refresh_token: None,
        offline: false,
    }
}

#[test]
fn uuid_dashes_inserted() {
    assert_eq!(
        insert_uuid_dashes("069a79f444e94726a5befca90e38aaf5"),
        "069a79f4-44e9-4726-a5be-fca90e38aaf5"
    );
}

#[test]
fn uuid_dashes_left_alone() {
    assert_eq!(insert_uuid_dashes("069a79f4-44e9-4726-a5be-fca90e38aaf5"), "069a79f4-44e9-4726-a5be-fca90e38aaf5");
    assert_eq!(insert_uuid_dashes("short"), "short");
}

#[test]
fn offline_uuid_values() {
    assert_eq!(offline_uuid("Steve"), "5627dd98-e6be-3c21-b8a8-e92344183641");
    assert_eq!(offline_uuid("Alex"), "36532b5e-c442-3dbb-a24c-c7e55d0f979a");
    assert_eq!(offline_uuid("Notch"), "b50ad385-829d-3141-a216-7e7d7539ba7f");
}

#[test]
fn offline_account_trims_name() {
    let a = offline_account("  Steve ").unwrap();
    assert_eq!(a.name, "Steve");
    assert_eq!(a.uuid, "5627dd98-e6be-3c21-b8a8-e92344183641");
    assert_eq!(a.access_token, "0");
    assert!(a.refresh_token.is_none());
    assert!(a.offline);
}

#[test]
fn offline_account_rejects_bad_names() {
    assert_eq!(offline_account("   ").unwrap_err(), "Username must be 1–16 characters");
    assert_eq!(offline_account("abcdefghijklmnopq").unwrap_err(), "Username must be 1–16 characters");
    assert!(offline_account("abcdefghijklmnop").is_ok());
}

#[test]
fn registered_account_becomes_active_once() {
    let mut s = fallback_settings();
    register_account(&mut s, acc("u1", "one"));
    register_account(&mut s, acc("u2", "two"));
    register_account(&mut s, acc("u1", "one-again"));
    assert_eq!(s.accounts.len(), 2);
    assert_eq!(s.accounts[0].uuid, "u2");
    assert_eq!(s.accounts[1].name, "one-again");
    assert_eq!(s.active_account.as_deref(), Some("u1"));
    let a = active_account(&s.accounts, &s.active_account).unwrap();
    assert_eq!(a.name, "one-again");
}

#[test]
fn account_changes_keep_other_settings() {
    let mut s = fallback_settings();
    s.fullscreen = true;
    s.jvm_args = "-Dx=1".to_string();
    s.ingame_branding = false;
    s.last_version = Some("1.20.1".to_string());
    register_account(&mut s, acc("u1", "one"));
    register_account(&mut s, offline_account("Steve").unwrap());
    let _ = set_active_account(&mut s, "u1".to_string());
    remove_account(&mut s, "u1".to_string());
    assert!(s.fullscreen);
    assert_eq!(s.jvm_args, "-Dx=1");
    assert!(!s.ingame_branding);
    assert_eq!(s.last_version.as_deref(), Some("1.20.1"));
    assert_eq!(s.memory_mb, 4096);
}

#[test]
fn select_unknown_account_fails() {
    let mut s = fallback_settings();
    register_account(&mut s, acc("u1", "one"));
    assert_eq!(set_active_account(&mut s, "nope".to_string()).unwrap_err(), "Account not found");
    assert_eq!(s.active_account.as_deref(), Some("u1"));
    register_account(&mut s, acc("u2", "two"));
    assert!(set_active_account(&mut s, "u1".to_string()).is_ok());
    assert_eq!(s.active_account.as_deref(), Some("u1"));
}

#[test]
fn removing_active_account_falls_back_to_last() {
    let mut s = fallback_settings();
    register_account(&mut s, acc("u1", "one"));
    register_account(&mut s, acc("u2", "two"));
    register_account(&mut s, acc("u3", "three"));
    set_active_account(&mut s, "u3".to_string()).unwrap();
    remove_account(&mut s, "u3".to_string());
    assert_eq!(s.accounts.len(), 2);
    assert_eq!(s.active_account.as_deref(), Some("u2"));
    remove_account(&mut s, "u1".to_string());
    assert_eq!(s.active_account.as_deref(), Some("u2"));
    remove_account(&mut s, "u2".to_string());
    assert!(s.active_account.is_none());
    assert!(s.accounts.is_empty());
}

#[test]
fn active_account_defaults_to_last() {
    let accounts = vec![acc("a", "A"), acc("b", "B")];
    assert_eq!(active_account(&accounts, &None).unwrap().uuid, "b");
    assert_eq!(active_account(&accounts, &Some("a".to_string())).unwrap().uuid, "a");
    assert_eq!(active_account(&accounts, &Some("zz".to_string())).unwrap().uuid, "b");
    assert!(active_account(&vec![], &None).is_none());
}

#[test]
fn poll_steps() {
    assert!(matches!(poll_step(Some("authorization_pending".into()), None, None, None, ""), PollStep::Wait));
    assert!(matches!(poll_step(Some("slow_down".into()), None, None, None, ""), PollStep::WaitLonger));
    match poll_step(Some("expired_token".into()), None, None, None, "") {
        PollStep::Fail(m) => assert_eq!(m, "Login expired. Please try again."),
        _ => panic!(),
    }
    match poll_step(Some("access_denied".into()), None, None, None, "") {
        PollStep::Fail(m) => assert_eq!(m, "Login cancelled."),
        _ => panic!(),
    }
    match poll_step(Some("bad".into()), Some("oops".into()), None, None, "") {
        PollStep::Fail(m) => assert_eq!(m, "Microsoft error (bad): oops"),
        _ => panic!(),
    }
    match poll_step(None, None, None, None, "{}") {
        PollStep::Fail(m) => assert_eq!(m, "No access token received: {}"),
        _ => panic!(),
    }
    match poll_step(None, None, Some("tok".into()), Some("ref".into()), "") {
        PollStep::Proceed(t, r) => {
            assert_eq!(t, "tok");
            assert_eq!(r.as_deref(), Some("ref"));
        },
        _ => panic!(),
    }
}

#[test]
fn xbox_texts() {
    assert_eq!(rps_ticket("abc"), "d=abc");
    assert_eq!(xbox_identity_token("uhs", "tok"), "XBL3.0 x=uhs;tok");
    assert_eq!(xsts_hint(Some(2148916233), None), " This Microsoft account has no Xbox profile. Create one at xbox.com.");
    assert_eq!(xsts_hint(Some(2148916238), None), " This is a child account — add it to a Microsoft Family.");
    assert_eq!(xsts_hint(Some(1), Some("msg".into())), "msg");
    assert_eq!(xsts_hint(None, None), "");
}

#[test]
fn online_account_dashes_profile_id() {
    let a = online_account("069a79f444e94726a5befca90e38aaf5", "Notch".into(), "tok".into(), None);
    assert_eq!(a.uuid, "069a79f4-44e9-4726-a5be-fca90e38aaf5");
    assert_eq!(a.name, "Notch");
    assert!(!a.offline);
}

#[test]
fn dock_arguments() {
    assert_eq!(macos_dock_jvm_args(None), vec!["-Xdock:name=Cubera"]);
    assert_eq!(
        macos_dock_jvm_args(Some("/x/icon.icns".into())),
        vec!["-Xdock:name=Cubera", "-Xdock:icon=/x/icon.icns"]
    );
    assert_eq!(
        dock_icon_candidates("/data"),
        vec!["/Applications/Cubera.app/Contents/Resources/icon.icns", "/data/branding/icon.icns"]
    );
    let c = vec!["a".to_string(), "b".to_string()];
    assert_eq!(first_present(&c, &vec![false, true]).as_deref(), Some("b"));
    assert!(first_present(&c, &vec![false, false]).is_none());
}

#[test]
fn pack_added_to_empty_options() {
    assert_eq!(enable_pack_in_options(""), "resourcePacks:[\"file/Cubera.zip\"]\n");
    assert_eq!(enable_pack_in_options("fov:0.0"), "fov:0.0\nresourcePacks:[\"file/Cubera.zip\"]\n");
}

#[test]
fn pack_moved_first() {
    assert_eq!(
        enable_pack_in_options("resourcePacks:[\"vanilla\",\"file/Cubera.zip\"]\nlang:en_us\n"),
        "resourcePacks:[\"file/Cubera.zip\",\"vanilla\"]\nlang:en_us\n"
    );
}

#[test]
fn incompatible_entry_removed() {
    assert_eq!(
        clear_incompatible_pack("incompatibleResourcePacks:[\"file/Cubera.zip\",\"x\"]\n"),
        "incompatibleResourcePacks:[\"x\"]\n"
    );
    assert_eq!(clear_incompatible_pack("incompatibleResourcePacks:[\"x\"]\n"), "incompatibleResourcePacks:[\"x\"]\n");
}

#[test]
fn options_rewritten_fully() {
    assert_eq!(
        options_with_cubera_pack("resourcePacks:[]\nincompatibleResourcePacks:[\"file/Cubera.zip\",\"x\"]\n"),
        "resourcePacks:[\"file/Cubera.zip\"]\nincompatibleResourcePacks:[\"x\"]\n"
    );
    let once = options_with_cubera_pack("resourcePacks:[\"a\"]\n");
    assert_eq!(once, "resourcePacks:[\"file/Cubera.zip\",\"a\"]\n");
    assert_eq!(options_with_cubera_pack(&once), once);
}

#[test]
fn pack_files_listed() {
    assert_eq!(resource_pack_path("/g"), "/g/resourcepacks/Cubera.zip");
    let f = resource_pack_files(None, None, None);
    let names: Vec<&str> = f.iter().map(|(n, _)| n.as_str()).collect();
    assert_eq!(
        names,
        vec![
            "pack.mcmeta",
            "assets/minecraft/texts/splashes.txt",
            "assets/minecraft/lang/en_us.json",
            "assets/minecraft/lang/nl_nl.json"
        ]
    );
    let meta = String::from_utf8(f[0].1.clone()).unwrap();
    assert!(meta.contains("\"min_format\": [88, 0]"));
    assert!(String::from_utf8(f[1].1.clone()).unwrap().starts_with("Cubera!\n"));
    assert!(String::from_utf8(f[2].1.clone()).unwrap().contains("Singleplayer · Cubera"));
    let g = resource_pack_files(Some(vec![1]), None, Some(vec![2, 3]));
    assert_eq!(g.len(), 6);
    assert_eq!(g[4].0, "assets/minecraft/textures/gui/title/edition.png");
    assert_eq!(g[5], ("pack.png".to_string(), vec![2, 3]));
    let h = resource_pack_files(None, Some(vec![]), Some(vec![9]));
    assert_eq!(h.len(), 4);
}

#[test]
fn offline_uuid_is_version_3() {
    for name in ["Steve", "Alex", "Notch", "a", "abcdefghijklmnop", "é"] {
        let u = offline_uuid(name);
        assert_eq!(u.len(), 36);
        assert_eq!(u.as_bytes()[14], b'3');
        assert!(matches!(u.as_bytes()[19], b'8' | b'9' | b'a' | b'b'));
    }
}
