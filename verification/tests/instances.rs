use cubera::instances::{
    complete_meta, copy_id_candidate, copy_step, duplicate_slug, duplicated_meta, ensure_instance,
    ensure_instance_with_version, first_copy_id, game_version_from_matches, infer_game_version,
    infer_loader, instance_subfolder, launch_options, listed, load_meta, mark_played, meta_path, new_instance_meta,
    record_play, sort_listed, trim_dash_chars, update_instance, CopyStep, InstanceInfo, InstanceMeta,
    RunningInstances,
};

fn meta(id: &str) -> InstanceMeta {
    InstanceMeta {
        id: id.into(),
        version_id: id.into(),
        name: id.into(),
        notes: String::new(),
        game_version: None,
        loader: None,
        memory_mb: None,
        jvm_args: None,
        java_path: None,
        last_played: None,
        play_count: 0,
        created_at: None,
    }
}

fn info(name: &str, last: Option<&str>) -> InstanceInfo {
    InstanceInfo {
        id: name.into(),
        version_id: name.into(),
        name: name.into(),
        notes: String::new(),
        game_version: None,
        loader: None,
        memory_mb: None,
        jvm_args: None,
        java_path: None,
        last_played: last.map(|s| s.to_string()),
        play_count: 0,
        created_at: None,
        mod_count: 0,
        running: false,
    }
}

#[test]
fn meta_file_location() {
    assert_eq!(meta_path("/i", "x"), "/i/x/cubera-instance.json");
}

#[test]
fn loader_inference() {
    assert_eq!(infer_loader("fabric-loader-0.15.0-1.20.1").as_deref(), Some("fabric"));
    assert_eq!(infer_loader("Quilt-loader-0.1-1.20").as_deref(), Some("quilt"));
    assert_eq!(infer_loader("1.20.1-neoforge-47").as_deref(), Some("neoforge"));
    assert_eq!(infer_loader("1.20.1-forge-47.2.0").as_deref(), Some("forge"));
    assert_eq!(infer_loader("1.20.1").as_deref(), Some("vanilla"));
}

#[test]
fn game_version_inference() {
    assert_eq!(infer_game_version("fabric-loader-0.15.0-1.20.1").as_deref(), Some("1.20.1"));
    assert_eq!(infer_game_version("1.20.1-forge-47.2.0").as_deref(), Some("1.20.1"));
    assert_eq!(infer_game_version("snapshot").as_deref(), None);
    assert_eq!(
        game_version_from_matches("quilt-x", vec!["0.1".into(), "1.20".into()]).as_deref(),
        Some("1.20")
    );
    assert_eq!(game_version_from_matches("x", vec![]).as_deref(), None);
}

#[test]
fn stored_meta_completed() {
    let mut m = meta("keep");
    m.name = String::new();
    m.version_id = String::new();
    let r = complete_meta(m, "folder", "fabric-loader-0.15.0-1.20.1");
    assert_eq!(r.id, "keep");
    assert_eq!(r.name, "folder");
    assert_eq!(r.version_id, "fabric-loader-0.15.0-1.20.1");
    assert_eq!(r.game_version.as_deref(), Some("1.20.1"));
    assert_eq!(r.loader.as_deref(), Some("fabric"));
}

#[test]
fn new_meta_fields() {
    let r = new_instance_meta("inst", "1.20.1", "2024-01-01T00:00:00Z".into());
    assert_eq!(r.id, "inst");
    assert_eq!(r.name, "inst");
    assert_eq!(r.loader.as_deref(), Some("vanilla"));
    assert_eq!(r.game_version.as_deref(), Some("1.20.1"));
    assert_eq!(r.play_count, 0);
    assert_eq!(r.created_at.as_deref(), Some("2024-01-01T00:00:00Z"));
    let e = ensure_instance_with_version("a", "1.19", None);
    assert_eq!(e.version_id, "1.19");
    assert!(e.created_at.as_deref().map(|t| t.contains('T')).unwrap_or(false));
    let s = ensure_instance("b", Some(meta("b")));
    assert_eq!(s.id, "b");
    let l = load_meta("c", None);
    assert_eq!(l.version_id, "c");
}

#[test]
fn edits_applied() {
    let mut cur = meta("x");
    cur.game_version = Some("1.20".into());
    cur.play_count = 3;
    let mut edit = meta("x");
    edit.name = "  My World ".into();
    edit.memory_mb = Some(256);
    edit.jvm_args = Some("  ".into());
    edit.java_path = Some(" /j ".into());
    edit.version_id = String::new();
    let r = update_instance(cur, edit);
    assert_eq!(r.name, "My World");
    assert_eq!(r.memory_mb, None);
    assert_eq!(r.jvm_args, None);
    assert_eq!(r.java_path.as_deref(), Some("/j"));
    assert_eq!(r.game_version.as_deref(), Some("1.20"));
    assert_eq!(r.version_id, "x");
    assert_eq!(r.play_count, 3);
    let mut e2 = meta("x");
    e2.name = " ".into();
    e2.memory_mb = Some(2048);
    let r2 = update_instance(meta("x"), e2);
    assert_eq!(r2.name, "x");
    assert_eq!(r2.memory_mb, Some(2048));
}

#[test]
fn plays_counted() {
    let r = record_play(meta("x"), "now".into());
    assert_eq!(r.play_count, 1);
    assert_eq!(r.last_played.as_deref(), Some("now"));
    let mut m = meta("y");
    m.play_count = u64::MAX;
    assert_eq!(record_play(m, "t".into()).play_count, u64::MAX);
    assert!(mark_played(meta("z")).last_played.is_some());
}

#[test]
fn running_table() {
    let mut t = RunningInstances::new();
    assert!(t.pid_of("a").is_none());
    assert_eq!(t.kill_target("a").unwrap_err(), "Instance is not running");
    t.register_running("a", 10);
    t.register_running("b", 20);
    t.register_running("a", 11);
    assert_eq!(t.pid_of("a"), Some(11));
    assert_eq!(t.kill_target("b"), Ok(20));
    assert!(t.is_running("a", true));
    assert!(!t.is_running("a", false));
    assert!(t.pid_of("a").is_none());
    assert!(!t.is_running("zz", true));
    t.forget("b");
    assert!(t.pid_of("b").is_none());
}

#[test]
fn subfolders() {
    assert_eq!(instance_subfolder("/i", "x", "mods").unwrap(), "/i/x/mods");
    assert_eq!(instance_subfolder("/i", "x", ".").unwrap(), "/i/x");
    assert_eq!(instance_subfolder("/i", "x", "../etc").unwrap_err(), "Folder not allowed");
}

#[test]
fn copy_names() {
    assert_eq!(duplicate_slug("  My World! ").unwrap(), "My-World");
    assert_eq!(duplicate_slug("a_b-c").unwrap(), "a_b-c");
    assert_eq!(duplicate_slug("A_b").unwrap(), "A_b");
    assert_eq!(duplicate_slug("Ünï Wörld").unwrap(), "n--W-rld");
    assert_eq!(duplicate_slug("!!!").unwrap(), "");
    assert_eq!(duplicate_slug("   ").unwrap_err(), "Name required");
    assert_eq!(first_copy_id("inst", ""), "inst-copy");
    assert_eq!(first_copy_id("inst", "My-World"), "My-World");
    assert_eq!(copy_id_candidate("My-World", 2), "My-World-copy-2");
    assert_eq!(copy_id_candidate("", 3), "-copy-3");
    assert_eq!(trim_dash_chars(&"--a-b--".chars().collect()), "a-b".chars().collect::<Vec<_>>());
}

#[test]
fn copy_meta_and_steps() {
    let mut src = meta("src");
    src.play_count = 5;
    src.last_played = Some("t".into());
    src.version_id = "shared".into();
    let r = duplicated_meta(src, "dest".into(), "  Copy  ", "now".into());
    assert_eq!(r.id, "dest");
    assert_eq!(r.name, "Copy");
    assert_eq!(r.play_count, 0);
    assert!(r.last_played.is_none());
    assert_eq!(r.version_id, "shared");
    assert_eq!(r.created_at.as_deref(), Some("now"));
    assert!(matches!(copy_step("cubera-instance.json", false), CopyStep::Skip));
    assert!(matches!(copy_step("saves", true), CopyStep::Skip));
    assert!(matches!(copy_step("mods", true), CopyStep::Recurse));
    assert!(matches!(copy_step("cubera-launch.log", false), CopyStep::Skip));
    assert!(matches!(copy_step("options.txt", false), CopyStep::Copy));
}

#[test]
fn listing_order() {
    let v = vec![
        listed(info("beta", None)),
        listed(info("Alpha", None)),
        listed(info("old", Some("2023-01-01"))),
        listed(info("new", Some("2024-01-01"))),
    ];
    let r = sort_listed(v);
    let names: Vec<&str> = r.iter().map(|l| l.info.name.as_str()).collect();
    assert_eq!(names, vec!["Alpha", "beta", "new", "old"]);
    assert_eq!(r[0].lower_name, "alpha");
}

#[test]
fn instance_settings_override_globals() {
    let mut settings = cubera::paths::fallback_settings();
    settings.jvm_args = "-XX:+UseG1GC".to_string();
    settings.java_path = Some("/usr/bin/java".to_string());
    let plain = launch_options(&settings, &meta("a"));
    assert_eq!(plain.memory_mb, 4096);
    assert_eq!(plain.jvm_args, "-XX:+UseG1GC");
    assert_eq!(plain.java_path.as_deref(), Some("/usr/bin/java"));

    let mut own = meta("b");
    own.memory_mb = Some(2048);
    own.jvm_args = Some("  -Dfoo=1 ".to_string());
    own.java_path = Some("/opt/jdk/bin/java".to_string());
    let o = launch_options(&settings, &own);
    assert_eq!(o.memory_mb, 2048);
    assert_eq!(o.jvm_args, "-Dfoo=1");
    assert_eq!(o.java_path.as_deref(), Some("/opt/jdk/bin/java"));

    let mut blank = meta("c");
    blank.jvm_args = Some("   ".to_string());
    blank.java_path = Some(String::new());
    let b = launch_options(&settings, &blank);
    assert_eq!(b.jvm_args, "-XX:+UseG1GC");
    assert_eq!(b.java_path.as_deref(), Some("/usr/bin/java"));
}

#[test]
fn complete_stored_meta_round_trips_and_loading_twice_agrees() {
    let mut m = meta("w");
    m.version_id = "1.20.1-forge-47.2.0".into();
    m.game_version = Some("1.20.1".into());
    m.loader = Some("forge".into());
    m.notes = "notes".into();
    m.memory_mb = Some(2048);
    m.jvm_args = Some("-Dx=1".into());
    m.play_count = 7;
    m.last_played = Some("t".into());
    m.created_at = Some("c".into());
    let r = load_meta("w", Some(m.clone()));
    assert_eq!(format!("{r:?}"), format!("{m:?}"));

    let first = ensure_instance("fresh-1.20.4", None);
    assert_eq!(first.notes, "");
    assert_eq!(first.game_version.as_deref(), Some("1.20.4"));
    assert!(first.memory_mb.is_none() && first.jvm_args.is_none() && first.java_path.is_none());
    let second = ensure_instance("fresh-1.20.4", Some(first.clone()));
    assert_eq!(format!("{second:?}"), format!("{first:?}"));

    let mut gone = meta("snap");
    gone.loader = None;
    let once = ensure_instance("snap", Some(gone));
    let twice = ensure_instance("snap", Some(once.clone()));
    assert_eq!(format!("{twice:?}"), format!("{once:?}"));
}

#[test]
fn a_play_keeps_every_other_field() {
    let mut m = meta("p");
    m.notes = "n".into();
    m.memory_mb = Some(1024);
    m.created_at = Some("c".into());
    let r = record_play(m.clone(), "now".into());
    assert_eq!(r.last_played.as_deref(), Some("now"));
    assert_eq!(r.play_count, 1);
    let mut expect = m.clone();
    expect.last_played = Some("now".into());
    expect.play_count = 1;
    assert_eq!(format!("{r:?}"), format!("{expect:?}"));
}
