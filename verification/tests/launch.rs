use cubera::launch::{
    ascii_lowercase, asset_index_name, build_classpath, classifier_matches_macos,
    classpath_candidates, client_jar_candidates, crash_message, expand_args, has_arg,
    java_home_bin, java_lookup_plan, launch_arguments, launch_features, launched_message,
    native_classifier_matches_macos, native_entry_file, native_jars, replace_tokens, window_size,
    JavaProbe, LaunchContext, LaunchPlan,
};
use cubera::manifest::{
    merge_versions, Argument, ArgumentsEntry, Artifact, AssetIndexEntry, JsonEntry, Library, LibraryDownloads,
    ProfileJson, Rule,
};

fn ctx() -> LaunchContext {
    LaunchContext {
        player_name: "Steve".into(),
        player_uuid: "uuid-1".into(),
        access_token: "tok".into(),
        offline: true,
        version_id: "1.20.1".into(),
        game_dir: "/g".into(),
        assets_root: "/a".into(),
        asset_index: "5".into(),
        natives_dir: "/n".into(),
        classpath: "/cp.jar".into(),
        libraries_dir: "/l".into(),
        width: 854,
        height: 480,
    }
}

fn plan() -> LaunchPlan {
    LaunchPlan {
        memory_mb: 4096,
        extra_jvm_args: String::new(),
        fullscreen: false,
        dock_args: vec![],
        jvm_arguments: None,
        game_arguments: None,
        legacy_arguments: None,
        main_class: "net.minecraft.client.main.Main".into(),
    }
}

#[test]
fn tokens_replaced() {
    let c = ctx();
    assert_eq!(replace_tokens("--username ${auth_player_name}", &c), "--username Steve");
    assert_eq!(replace_tokens("${user_type}/${clientid}/${auth_xuid}", &c), "legacy/cubera/0");
    assert_eq!(replace_tokens("${resolution_width}x${resolution_height}", &c), "854x480");
    assert_eq!(replace_tokens("${launcher_name}-${launcher_version}", &c), "Cubera-0.1.0");
    assert_eq!(replace_tokens("-Djava.library.path=${natives_directory}", &c), "-Djava.library.path=/n");
    assert_eq!(replace_tokens("${unknown}", &c), "${unknown}");
}

#[test]
fn guarded_arguments_follow_rules() {
    let c = ctx();
    let args = vec![
        Argument::Plain("--demo".into()),
        Argument::Guarded {
            rules: vec![Rule { allow: true, os_name: None, features: vec![("has_custom_resolution".into(), true)] }],
            values: vec!["--width".into(), "${resolution_width}".into()],
        },
        Argument::Guarded {
            rules: vec![Rule { allow: true, os_name: Some("windows".into()), features: vec![] }],
            values: vec!["-XX:Win".into()],
        },
    ];
    let on = expand_args(&args, &c, "osx", &launch_features(false));
    assert_eq!(on, vec!["--demo", "--width", "854"]);
    let off = expand_args(&args, &c, "osx", &launch_features(true));
    assert_eq!(off, vec!["--demo"]);
}

#[test]
fn window_and_index_defaults() {
    assert_eq!(window_size(100, 100), (640, 480));
    assert_eq!(window_size(1920, 1080), (1920, 1080));
    assert_eq!(asset_index_name(Some("17".into()), Some("legacy".into())), "17");
    assert_eq!(asset_index_name(None, Some("pre-1.6".into())), "pre-1.6");
    assert_eq!(asset_index_name(None, None), "legacy");
    let f = launch_features(false);
    assert_eq!(f.len(), 6);
    assert_eq!(f[0], ("has_custom_resolution".to_string(), true));
    assert!(f[1..].iter().all(|(_, v)| !v));
}

#[test]
fn default_command_line() {
    let (jvm, game) = launch_arguments(&plan(), &ctx(), "osx", &launch_features(false));
    assert_eq!(
        jvm,
        vec![
            "-Xmx4096M",
            "-Xms1024M",
            "-Dminecraft.launcher.brand=Cubera",
            "-Dminecraft.launcher.version=0.1.0",
            "-Djava.library.path=/n/java",
            "-cp",
            "/cp.jar",
            "net.minecraft.client.main.Main",
        ]
    );
    assert_eq!(
        game,
        vec![
            "--username", "Steve", "--version", "1.20.1", "--gameDir", "/g", "--assetsDir", "/a",
            "--assetIndex", "5", "--uuid", "uuid-1", "--accessToken", "tok", "--userType", "legacy",
            "--versionType", "Cubera", "--width", "854", "--height", "480",
        ]
    );
}

#[test]
fn small_heap_starts_at_512() {
    let mut p = plan();
    p.memory_mb = 1024;
    let (jvm, _) = launch_arguments(&p, &ctx(), "osx", &launch_features(false));
    assert_eq!(jvm[0], "-Xmx1024M");
    assert_eq!(jvm[1], "-Xms512M");
}

#[test]
fn modern_profile_command_line() {
    let mut p = plan();
    p.extra_jvm_args = " -XX:+UseG1GC  -Dx=1 ".into();
    p.dock_args = vec!["-Xdock:name=Cubera".into()];
    p.fullscreen = true;
    p.jvm_arguments = Some(vec![Argument::Plain("-Djava.library.path=${natives_directory}/java".into())]);
    p.game_arguments = Some(vec![
        Argument::Plain("--username".into()),
        Argument::Plain("${auth_player_name}".into()),
    ]);
    let (jvm, game) = launch_arguments(&p, &ctx(), "osx", &launch_features(true));
    assert_eq!(
        jvm,
        vec![
            "-Xmx4096M",
            "-Xms1024M",
            "-Dminecraft.launcher.brand=Cubera",
            "-Dminecraft.launcher.version=0.1.0",
            "-Xdock:name=Cubera",
            "-XX:+UseG1GC",
            "-Dx=1",
            "-Djava.library.path=/n/java",
            "-cp",
            "/cp.jar",
            "net.minecraft.client.main.Main",
        ]
    );
    assert_eq!(game, vec!["--username", "Steve", "--fullscreen"]);
}

#[test]
fn legacy_arguments_and_fullscreen_removed() {
    let mut p = plan();
    p.legacy_arguments = Some("--username ${auth_player_name} --fullscreen --width 100".into());
    let (_, game) = launch_arguments(&p, &ctx(), "osx", &launch_features(false));
    assert_eq!(game, vec!["--username", "Steve", "--width", "100"]);
    assert!(has_arg(&game, "--width"));
    assert!(!has_arg(&game, "--fullscreen"));
}

#[test]
fn classifier_matching() {
    assert!(classifier_matches_macos("natives-macos-arm64", true));
    assert!(!classifier_matches_macos("natives-macos-arm64", false));
    assert!(classifier_matches_macos("NATIVES-OSX", false));
    assert!(!classifier_matches_macos("natives-linux", false));
    assert!(native_classifier_matches_macos("org.lwjgl:lwjgl:3.3.3:natives-macos-arm64", true));
    assert!(!native_classifier_matches_macos("org.lwjgl:lwjgl:3.3.3:natives-windows", true));
    assert_eq!(ascii_lowercase("AbC-Ü"), "abc-Ü");
}

#[test]
fn native_entries() {
    assert_eq!(native_entry_file("macos/arm64/liblwjgl.dylib", true, false).as_deref(), Some("liblwjgl.dylib"));
    assert_eq!(native_entry_file("libglfw.dylib", false, true).as_deref(), Some("libglfw.dylib"));
    assert!(native_entry_file("META-INF/x.dylib", true, false).is_none());
    assert!(native_entry_file("dir/", true, false).is_none());
    assert!(native_entry_file("a/x64/lib.so", true, false).is_none());
    assert!(native_entry_file("a/arm64/lib.so", false, true).is_none());
    assert!(native_entry_file("readme.txt", true, false).is_none());
}

fn lib(name: &str, artifact: Option<&str>, classifiers: Vec<(&str, &str)>, natives: bool) -> Library {
    Library {
        name: name.into(),
        downloads: Some(LibraryDownloads {
            artifact: artifact.map(|p| Artifact { path: p.into(), url: format!("https://x/{p}"), sha1: "s".into() }),
            classifiers: classifiers
                .into_iter()
                .map(|(k, p)| (k.to_string(), Artifact { path: p.into(), url: format!("https://x/{p}"), sha1: "s".into() }))
                .collect(),
        }),
        url: None,
        rules: vec![],
        natives,
    }
}

#[test]
fn classpath_from_libraries() {
    let mut plain = lib("a:b:1", None, vec![], false);
    plain.downloads = None;
    let libs = vec![
        lib("g:x:1", Some("g/x/1/x-1.jar"), vec![], false),
        lib("g:nat:1", None, vec![("natives-osx", "n.jar")], true),
        plain,
        Library {
            name: "w:w:1".into(),
            downloads: None,
            url: None,
            rules: vec![Rule { allow: true, os_name: Some("windows".into()), features: vec![] }],
            natives: false,
        },
    ];
    let c = classpath_candidates(&libs, "osx", "/l");
    assert_eq!(c, vec!["/l/g/x/1/x-1.jar", "/l/a/b/1/b-1.jar"]);
    assert_eq!(build_classpath(&c, &vec![true, false], Some("/v/1.20/1.20.jar".into())), "/l/g/x/1/x-1.jar:/v/1.20/1.20.jar");
    assert_eq!(build_classpath(&c, &vec![false, false], None), "");
    assert_eq!(
        client_jar_candidates("/v", "fabric-x", &vec!["fabric-x".into(), "1.20.1".into()]),
        vec!["/v/fabric-x/fabric-x.jar", "/v/1.20.1/1.20.1.jar", "/v/fabric-x/fabric-x.jar"]
    );
}

#[test]
fn native_jars_of_libraries() {
    let libs = vec![
        lib("org.lwjgl:lwjgl:3.2.1", Some("lwjgl.jar"), vec![("natives-osx", "old.jar"), ("natives-linux", "lin.jar")], true),
        lib("org.lwjgl:lwjgl:3.3.3:natives-macos-arm64", Some("arm.jar"), vec![], false),
        lib("ca.weblite:java-objc-bridge:1.1", Some("bridge.jar"), vec![], false),
    ];
    assert_eq!(native_jars(&libs, "osx", "/l", true), vec!["/l/arm.jar", "/l/bridge.jar"]);
    assert_eq!(native_jars(&libs, "osx", "/l", false), vec!["/l/old.jar", "/l/bridge.jar"]);
}

#[test]
fn java_search_order() {
    let p = java_lookup_plan(Some("/my/java".into()));
    assert_eq!(p.len(), 11);
    assert!(matches!(&p[0], JavaProbe::Path(x) if x == "/my/java"));
    assert!(matches!(&p[1], JavaProbe::JavaHome(Some(v)) if v == "25"));
    assert!(matches!(&p[5], JavaProbe::JavaHome(None)));
    assert!(matches!(&p[9], JavaProbe::Path(x) if x == "/usr/bin/java"));
    assert!(matches!(&p[10], JavaProbe::Which));
    assert_eq!(java_lookup_plan(None).len(), 10);
    assert_eq!(java_home_bin(" /Library/Java/Home\n"), "/Library/Java/Home/bin/java");
}

#[test]
fn launch_reports() {
    assert_eq!(launched_message("1.20.1", "Steve"), "Gestart: 1.20.1 als Steve");
    assert_eq!(crash_message("1", " boom \n", "out"), "Minecraft stopte meteen (exit 1).\nboom");
    assert_eq!(crash_message("1", "  ", "out"), "Minecraft stopte meteen (exit 1).\nout");
    assert_eq!(crash_message("1", "", ""), "Minecraft stopte meteen (exit 1).\ngeen loguitvoer");
    let long = "x".repeat(900) + "END";
    let m = crash_message("2", &long, "");
    assert!(m.ends_with("END"));
    assert_eq!(m.len(), "Minecraft stopte meteen (exit 2).\n".len() + 800);
}

fn empty_profile() -> ProfileJson {
    ProfileJson {
        id: JsonEntry::Missing,
        main_class: JsonEntry::Missing,
        minecraft_arguments: JsonEntry::Missing,
        arguments: JsonEntry::Missing,
        asset_index: JsonEntry::Missing,
        assets: JsonEntry::Missing,
        libraries: vec![],
    }
}

fn plain(xs: &[&str]) -> Vec<Argument> {
    xs.iter().map(|x| Argument::Plain(x.to_string())).collect()
}

fn plain_texts(v: &Option<Vec<Argument>>) -> Option<Vec<String>> {
    v.as_ref().map(|a| {
        a.iter()
            .map(|x| match x {
                Argument::Plain(s) => s.clone(),
                Argument::Guarded { .. } => String::from("?"),
            })
            .collect()
    })
}

#[test]
fn merged_profiles_follow_json_merge() {
    let mut parent = empty_profile();
    parent.id = JsonEntry::Given("1.20.1".into());
    parent.main_class = JsonEntry::Given("net.minecraft.client.main.Main".into());
    parent.minecraft_arguments = JsonEntry::Given("--old".into());
    parent.arguments = JsonEntry::Given(ArgumentsEntry {
        game: JsonEntry::Given(plain(&["--username"])),
        jvm: JsonEntry::Given(plain(&["-cp"])),
    });
    parent.asset_index = JsonEntry::Given(AssetIndexEntry { id: JsonEntry::Given("5".into()) });
    parent.assets = JsonEntry::Given("5".into());

    let mut child = empty_profile();
    child.id = JsonEntry::Given("fabric".into());
    child.main_class = JsonEntry::Given("net.fabricmc.loader.Knot".into());
    child.minecraft_arguments = JsonEntry::Null;
    child.arguments = JsonEntry::Given(ArgumentsEntry { game: JsonEntry::Missing, jvm: JsonEntry::Given(plain(&["-Dx"])) });
    child.assets = JsonEntry::Null;

    let m = merge_versions(vec![child, parent]);
    assert_eq!(m.id.as_deref(), Some("fabric"));
    assert_eq!(m.main_class.as_deref(), Some("net.fabricmc.loader.Knot"));
    assert_eq!(m.minecraft_arguments, None);
    assert_eq!(plain_texts(&m.game_arguments), Some(vec!["--username".to_string()]));
    assert_eq!(plain_texts(&m.jvm_arguments), Some(vec!["-Dx".to_string()]));
    assert_eq!(m.asset_index_id.as_deref(), Some("5"));
    assert_eq!(m.assets, None);

    let mut nulled = empty_profile();
    nulled.arguments = JsonEntry::Null;
    let mut base = empty_profile();
    base.arguments = JsonEntry::Given(ArgumentsEntry { game: JsonEntry::Given(plain(&["a"])), jvm: JsonEntry::Missing });
    let n = merge_versions(vec![nulled, base]);
    assert!(n.game_arguments.is_none() && n.jvm_arguments.is_none());
}
