use cubera::commands::{deleted_profile, java_info, mod_file_path, profile_still_used};
use cubera::download::{
    allowed_libraries, asset_download, asset_hashes, asset_index_path, asset_progress,
    attempt_error, backoff_ms, client_jar_path, exhausted_error, library_downloads,
    list_installed_versions, natives_dir_for, progress_event, sha1_matches, version_json_path,
    FILE_ATTEMPTS, FILE_BACKOFF_MS,
};
use cubera::forge::{
    assets_index_hint, data_lookup, entry_below, forge_base_data, forge_data_table,
    forge_library_download, main_class_in, maven_entry_path, missing_library_message,
    no_main_class_message, plan_processor, processor_failure_message, processor_progress,
    profile_library_download, resolve_data_value, resolve_token, runs_on_client, ProfileLibrary,
    Resolved,
};
use cubera::http::{classify_status, fatal_message, network_message, transient_message, StatusClass, REQUEST_ATTEMPTS, REQUEST_BACKOFF_MS};
use cubera::java_runtime::{
    component_dir, component_for_major, component_unavailable_message, installed_java,
    java_bin_candidates, java_components, java_file_plan, java_file_progress,
    java_path_after_install, list_managed_java, managed_java_bin, platform_key, runtime_platforms,
    JavaFile, JavaFileStep, ManagedJavaInfo,
};
use cubera::loaders::{
    added_inherits_from, forge_fallback_jar, forge_installer_url, forge_versions, installed_profile_id, installer_path,
    list_neoforge_versions, loader_library_download, loader_list_url, loader_profile_id,
    loader_profile_url, maven_jar_path, neoforge_base_version, neoforge_installer_url,
    neoforge_mc_version, neoforge_versions, profile_source, quilt_loader, ProfileSource,
};
use cubera::manifest::{Artifact, Library, LibraryDownloads, Rule};
use cubera::paths::{assets_dir, versions_dir};

fn s(x: &str) -> String {
    x.to_string()
}

#[test]
fn version_files() {
    assert_eq!(version_json_path("/v", "1.20.1"), "/v/1.20.1/1.20.1.json");
    assert_eq!(client_jar_path("/v", "1.20.1"), "/v/1.20.1/1.20.1.jar");
    assert_eq!(natives_dir_for("1.20.1"), format!("{}/1.20.1/natives", versions_dir()));
    assert_eq!(asset_index_path("/a", "17"), "/a/indexes/17.json");
    assert_eq!(assets_index_hint(), assets_dir());
}

#[test]
fn installed_versions_newest_first() {
    let r = list_installed_versions(&vec![
        (s("1.19.4"), true),
        (s("junk"), false),
        (s("1.20.1"), true),
        (s("fabric-loader-0.15.0-1.20.1"), true),
    ]);
    assert_eq!(r, vec!["fabric-loader-0.15.0-1.20.1", "1.20.1", "1.19.4"]);
}

#[test]
fn backoff_waits() {
    assert_eq!(FILE_ATTEMPTS, 5);
    assert_eq!(REQUEST_ATTEMPTS, 6);
    assert_eq!(backoff_ms(FILE_BACKOFF_MS, 1), 300);
    assert_eq!(backoff_ms(FILE_BACKOFF_MS, 2), 600);
    assert_eq!(backoff_ms(FILE_BACKOFF_MS, 5), 4800);
    assert_eq!(backoff_ms(REQUEST_BACKOFF_MS, 6), 6400);
    assert_eq!(backoff_ms(REQUEST_BACKOFF_MS, 3), 1600);
}

#[test]
fn sha1_checks() {
    assert!(sha1_matches(b"hello", "aaf4c61ddcc5e8a2dabede0f3b482cd9aea9434d"));
    assert!(sha1_matches(b"hello", "AAF4C61DDCC5E8A2DABEDE0F3B482CD9AEA9434D"));
    assert!(!sha1_matches(b"hello!", "aaf4c61ddcc5e8a2dabede0f3b482cd9aea9434d"));
    assert!(!sha1_matches(b"hello", "hello"));
}

#[test]
fn attempt_errors() {
    assert!(attempt_error("u", Ok(true)).is_none());
    assert_eq!(attempt_error("http://x", Ok(false)).unwrap(), "SHA1 mismatch voor http://x");
    assert_eq!(attempt_error("u", Err(s("boom"))).unwrap(), "boom");
    assert_eq!(exhausted_error("boom", 5), "boom (na 5 pogingen)");
}

#[test]
fn asset_objects() {
    let h = asset_hashes(vec![s("bb"), s("aa12"), s("bb"), s("aa12"), s("cc")]);
    assert_eq!(h, vec!["aa12", "bb", "cc"]);
    let (p, u) = asset_download("/a", "abcdef");
    assert_eq!(p, "/a/objects/ab/abcdef");
    assert_eq!(u, "https://resources.download.minecraft.net/ab/abcdef");
    let (p, u) = asset_download("/a", "éab");
    assert_eq!(p, "/a/objects/é/éab");
    assert_eq!(u, "https://resources.download.minecraft.net/é/éab");
    let e = asset_progress(40, 100).unwrap();
    assert_eq!(e.stage, "assets");
    assert_eq!(e.message, "Assets 40/100");
    assert!(asset_progress(41, 100).is_none());
    assert_eq!(asset_progress(7, 7).unwrap().current, 7);
    let p = progress_event("x", 1, 2, "m");
    assert_eq!((p.stage.as_str(), p.current, p.total, p.message.as_str()), ("x", 1, 2, "m"));
}

fn art(p: &str) -> Artifact {
    Artifact { path: p.into(), url: format!("https://u/{p}"), sha1: s("h") }
}

#[test]
fn library_files() {
    let lib = Library {
        name: s("org.lwjgl:lwjgl:3.2.1"),
        downloads: Some(LibraryDownloads {
            artifact: Some(art("l.jar")),
            classifiers: vec![(s("natives-osx"), art("o.jar")), (s("natives-linux"), art("x.jar")), (s("natives-macos-arm64"), art("m.jar"))],
        }),
        url: None,
        rules: vec![],
        natives: true,
    };
    let jobs = library_downloads(&lib, "/l", false);
    let urls: Vec<&str> = jobs.iter().map(|j| j.url.as_str()).collect();
    assert_eq!(urls, vec!["https://u/l.jar", "https://u/o.jar", "https://u/m.jar"]);
    assert_eq!(jobs[0].dest, "/l/l.jar");
    assert_eq!(jobs[0].sha1.as_deref(), Some("h"));
    assert!(jobs.iter().all(|j| j.required));
    let fab = Library { name: s("net.fabricmc:intermediary:1.20.1"), downloads: None, url: Some(s("https://maven.fabricmc.net/")), rules: vec![], natives: false };
    let j = library_downloads(&fab, "/l", true);
    assert_eq!(j[0].url, "https://maven.fabricmc.net/net/fabricmc/intermediary/1.20.1/intermediary-1.20.1.jar");
    assert!(j[0].sha1.is_none());
    let plain = Library { name: s("a:b:1"), downloads: None, url: None, rules: vec![], natives: false };
    let k = library_downloads(&plain, "/l", true);
    assert_eq!(k[0].url, "https://libraries.minecraft.net/a/b/1/b-1.jar");
    assert!(!k[0].required);
    let win = Library { name: s("w:w:1"), downloads: None, url: None, rules: vec![Rule { allow: true, os_name: Some(s("windows")), features: vec![] }], natives: false };
    assert_eq!(allowed_libraries(&vec![plain, win, fab], "osx"), vec![0, 2]);
}

#[test]
fn status_classes() {
    assert!(matches!(classify_status(200), StatusClass::Success));
    assert!(matches!(classify_status(204), StatusClass::Success));
    assert!(matches!(classify_status(429), StatusClass::Transient));
    assert!(matches!(classify_status(503), StatusClass::Transient));
    assert!(matches!(classify_status(404), StatusClass::Fatal));
    assert!(matches!(classify_status(501), StatusClass::Fatal));
    assert_eq!(transient_message("503 Service Unavailable", "u"), "HTTP 503 Service Unavailable for u");
    assert_eq!(fatal_message("404 Not Found", "u", "nope"), "Download mislukt (404 Not Found) u: nope");
    assert_eq!(network_message("u", "timeout"), "Netwerkfout bij u: timeout");
}

#[test]
fn installer_entries() {
    assert_eq!(maven_entry_path("maven/net/x/1/x-1.jar").as_deref(), Some("net/x/1/x-1.jar"));
    assert_eq!(maven_entry_path("maven/maven/a.jar").as_deref(), Some("a.jar"));
    assert!(maven_entry_path("maven/net/").is_none());
    assert!(maven_entry_path("data/client.lzma").is_none());
    assert_eq!(entry_below("overrides/config/a.txt", "overrides/").as_deref(), Some("config/a.txt"));
}

#[test]
fn data_values() {
    match resolve_data_value("[net.minecraft:client:1.20.1:srg]", "/l").unwrap() {
        Resolved::Library { coord, path } => {
            assert_eq!(coord, "net.minecraft:client:1.20.1:srg");
            assert_eq!(path, "/l/net/minecraft/client/1.20.1/client-1.20.1-srg.jar");
        },
        _ => panic!(),
    }
    assert!(matches!(resolve_data_value("'quoted'", "/l").unwrap(), Resolved::Text(t) if t == "quoted"));
    assert!(matches!(resolve_data_value("/plain/path", "/l").unwrap(), Resolved::Text(t) if t == "/plain/path"));
}

#[test]
fn tokens_against_table() {
    let data = vec![(s("SIDE"), s("client")), (s("ROOT"), s("/r"))];
    assert!(matches!(resolve_token("{ROOT}/x", &data, "/l").unwrap(), Resolved::Text(t) if t == "/r/x"));
    assert!(matches!(resolve_token("{SIDE}", &data, "/l").unwrap(), Resolved::Text(t) if t == "client"));
    assert_eq!(resolve_token("{MISSING}", &data, "/l").unwrap_err(), "Unknown Forge data key: MISSING");
    assert!(matches!(resolve_token("[a:b:1]", &data, "/l").unwrap(), Resolved::Library { path, .. } if path == "/l/a/b/1/b-1.jar"));
    assert!(matches!(resolve_token("--side", &data, "/l").unwrap(), Resolved::Text(t) if t == "--side"));
    assert_eq!(data_lookup(&data, "ROOT").as_deref(), Some("/r"));
    assert_eq!(missing_library_message("a:b:1", "/l/x"), "Missing library for processor: a:b:1 (/l/x)");
}

#[test]
fn processor_table() {
    let base = forge_base_data("/root", "/inst.jar", "/v", "1.20.1", "/l", "/i");
    assert_eq!(base.len(), 6);
    assert_eq!(base[3], (s("MINECRAFT_JAR"), s("/v/1.20.1/1.20.1.jar")));
    assert_eq!(base[5], (s("GAME_DIR"), s("/i/1.20.1")));
    let profile = vec![(s("MAPPINGS"), s("[de.oceanlabs.mcp:mcp_config:1.20.1:mappings@txt]")), (s("PATCHED"), s("'{ROOT}/patched.jar'"))];
    let t = forge_data_table(base, &profile, "/l");
    assert!(t.error.is_none());
    assert_eq!(t.checks.len(), 1);
    let patched = t.data.iter().find(|(k, _)| k == "PATCHED").unwrap();
    assert_eq!(patched.1, "/root/patched.jar");
}

#[test]
fn processor_plans() {
    assert_eq!(plan_processor(None, &vec![], &vec![], &vec![], "/l").unwrap_err(), "processor missing jar");
    let data = vec![(s("SIDE"), s("client"))];
    let p = plan_processor(Some(s("a:tool:1")), &vec![s("a:dep:2")], &vec![s("--side"), s("{SIDE}"), s("{NOPE}"), s("x")], &data, "/l").unwrap();
    assert_eq!(p.jar_path, "/l/a/tool/1/tool-1.jar");
    assert_eq!(p.classpath, "/l/a/tool/1/tool-1.jar:/l/a/dep/2/dep-2.jar");
    assert_eq!(p.args, vec!["--side", "client"]);
    assert_eq!(p.error.as_deref(), Some("Unknown Forge data key: NOPE"));
    assert_eq!(p.checks.len(), 2);
    assert!(runs_on_client(&None));
    assert!(runs_on_client(&Some(vec![s("server"), s("client")])));
    assert!(!runs_on_client(&Some(vec![s("server")])));
    assert_eq!(main_class_in("Manifest-Version: 1.0\r\nMain-Class:  a.b.Main \r\n").as_deref(), Some("a.b.Main"));
    assert!(main_class_in("Manifest-Version: 1.0\n").is_none());
    assert_eq!(no_main_class_message("a:b:1"), "No Main-Class in a:b:1");
    assert_eq!(processor_failure_message("M", "e", "o"), "Forge processor failed (M):\ne\no");
    assert_eq!(processor_progress(0, 3).message, "Forge processor 1/3");
}

#[test]
fn installer_libraries() {
    let named = ProfileLibrary { name: Some(s("a:b:1")), artifact_path: String::new(), artifact_url: String::new(), artifact_sha1: None, url: None };
    let j = profile_library_download(&named, "/l").unwrap();
    assert_eq!(j.url, "https://maven.minecraftforge.net/a/b/1/b-1.jar");
    assert!(!j.required);
    let explicit = ProfileLibrary { name: Some(s("a:b:1")), artifact_path: s("p/b.jar"), artifact_url: s("https://x/b.jar"), artifact_sha1: Some(s("h")), url: None };
    let k = forge_library_download(&explicit, "https://maven.neoforged.net/releases/", "/l").unwrap();
    assert_eq!((k.url.as_str(), k.dest.as_str(), k.required), ("https://x/b.jar", "/l/p/b.jar", true));
    let unnamed = ProfileLibrary { name: None, artifact_path: String::new(), artifact_url: String::new(), artifact_sha1: None, url: None };
    assert!(profile_library_download(&unnamed, "/l").is_none());
    assert_eq!(forge_library_download(&unnamed, "x", "/l").unwrap_err(), "library missing name");
    let m = forge_library_download(&named, "https://maven.neoforged.net/releases/", "/l").unwrap();
    assert_eq!(m.url, "https://maven.neoforged.net/releases/a/b/1/b-1.jar");
    assert!(m.required);
}

#[test]
fn loader_urls_and_ids() {
    assert_eq!(loader_list_url("https://meta.fabricmc.net/v2", "1.20.1"), "https://meta.fabricmc.net/v2/versions/loader/1.20.1");
    assert_eq!(
        loader_profile_url("https://meta.quiltmc.org/v3", "1.20.1", "0.21.0"),
        "https://meta.quiltmc.org/v3/versions/loader/1.20.1/0.21.0/profile/json"
    );
    assert_eq!(loader_profile_id("fabric", "0.15.0", "1.20.1"), "fabric-loader-0.15.0-1.20.1");
    let q = quilt_loader(Some(s("0.21.0")), None, Some(true)).unwrap();
    assert_eq!((q.separator.as_str(), q.build, q.maven.as_str(), q.stable), (".", 0, "", true));
    assert!(quilt_loader(Some(String::new()), None, None).is_none());
    assert!(quilt_loader(None, None, None).is_none());
    let d = loader_library_download(None, None, "https://maven.fabricmc.net/", "/l");
    assert_eq!(d.url, "https://maven.fabricmc.net/");
}

#[test]
fn forge_listing() {
    let groups = vec![
        (s("1.20.1"), vec![s("1.20.1-47.1.0"), s("1.20.1-47.2.0")]),
        (s("1.19.4"), vec![s("1.19.4-45.0.0"), s("odd")]),
    ];
    let all = forge_versions(&groups, &None);
    let raws: Vec<&str> = all.iter().map(|e| e.raw.as_str()).collect();
    assert_eq!(raws, vec!["odd", "1.20.1-47.2.0", "1.20.1-47.1.0", "1.19.4-45.0.0"]);
    assert_eq!(all[1].forge, "47.2.0");
    assert_eq!(all[0].forge, "odd");
    let only = forge_versions(&groups, &Some(s("1.19.4")));
    assert_eq!(only.len(), 2);
    assert!(only.iter().all(|e| e.mc == "1.19.4"));
}

#[test]
fn neoforge_versions_and_urls() {
    assert_eq!(neoforge_mc_version("21.1.77").as_deref(), Some("1.21.1"));
    assert_eq!(neoforge_mc_version("20.2.3-beta").as_deref(), Some("1.20.2"));
    assert_eq!(neoforge_mc_version("21.0.5").as_deref(), Some("1.21"));
    assert_eq!(neoforge_mc_version("21").as_deref(), None);
    let v = neoforge_versions(&vec![s("20.4.1"), s("21.1.77"), s("x"), s("21.1.80")], &Some(s("1.21.1")));
    let raws: Vec<&str> = v.iter().map(|e| e.raw.as_str()).collect();
    assert_eq!(raws, vec!["21.1.80", "21.1.77"]);
    let xml = "<metadata><versioning><versions><version>20.4.1</version><version>21.1.77</version></versions></versioning></metadata>";
    let l = list_neoforge_versions(xml, &None).unwrap();
    let raws: Vec<&str> = l.iter().map(|e| e.raw.as_str()).collect();
    assert_eq!(raws, vec!["21.1.77", "20.4.1"]);
    assert_eq!(l[1].mc, "1.20.4");
    assert_eq!(
        forge_installer_url("1.20.1-47.2.0"),
        "https://maven.minecraftforge.net/net/minecraftforge/forge/1.20.1-47.2.0/forge-1.20.1-47.2.0-installer.jar"
    );
    assert_eq!(
        neoforge_installer_url("21.1.77"),
        "https://maven.neoforged.net/releases/net/neoforged/neoforge/21.1.77/neoforge-21.1.77-installer.jar"
    );
    assert_eq!(installer_path("/v", "forge", "1.20.1-47.2.0"), "/v/forge-1.20.1-47.2.0-installer.jar");
    assert_eq!(installed_profile_id(None, "neoforge", "21.1.77"), "neoforge-21.1.77");
    assert_eq!(installed_profile_id(Some(s("id")), "forge", "x"), "id");
    assert_eq!(forge_fallback_jar("1.20.1-47.2.0", true), "net/minecraftforge/forge/1.20.1-47.2.0/forge-1.20.1-47.2.0-universal.jar");
    assert_eq!(maven_jar_path("g", "n", "1", "c"), "g/1/n-1-c.jar");
    assert_eq!(neoforge_base_version(None, "1.21.1"), "1.21.1");
    assert_eq!(neoforge_base_version(Some(s("1.21")), "1.21.1"), "1.21");
}

#[test]
fn java_runtimes() {
    assert_eq!(platform_key("macos", "aarch64"), "mac-os-arm64");
    assert_eq!(platform_key("macos", "x86_64"), "mac-os");
    assert_eq!(platform_key("linux", "x86"), "linux-i386");
    assert_eq!(platform_key("linux", "x86_64"), "linux");
    assert_eq!(platform_key("windows", "aarch64"), "windows-arm64");
    assert_eq!(platform_key("windows", "x86"), "windows-x86");
    assert_eq!(platform_key("windows", "x86_64"), "windows-x64");
    assert_eq!(platform_key("freebsd", "x86_64"), "linux");
    assert_eq!(component_dir("/j", "mac-os", "jre-legacy"), "/j/mac-os/jre-legacy");
    assert_eq!(java_bin_candidates("/c"), vec!["/c/jre.bundle/Contents/Home/bin/java", "/c/bin/java", "/c/java"]);
    assert_eq!(managed_java_bin("/c", &vec![false, true, true]).as_deref(), Some("/c/bin/java"));
    assert!(managed_java_bin("/c", &vec![false, false, false]).is_none());
    assert_eq!(component_for_major(8), "jre-legacy");
    assert_eq!(component_for_major(16), "java-runtime-alpha");
    assert_eq!(component_for_major(17), "java-runtime-gamma");
    assert_eq!(component_for_major(21), "java-runtime-delta");
    assert_eq!(component_for_major(25), "java-runtime-epsilon");
    assert_eq!(java_components().len(), 6);
    let l = list_managed_java(vec![None, Some(s("/d/bin/java")), None, None, None, None]);
    assert_eq!(l[1].component, "java-runtime-delta");
    assert!(l[1].installed && l[1].path == "/d/bin/java" && l[1].version.is_empty());
    assert!(!l[0].installed && l[0].path.is_empty());
    assert_eq!(runtime_platforms("mac-os-arm64"), vec!["mac-os-arm64", "mac-os"]);
    assert_eq!(runtime_platforms("linux"), vec!["linux"]);
    assert_eq!(component_unavailable_message("jre-legacy", "mac-os-arm64"), "Java component `jre-legacy` not available for mac-os-arm64");
    assert_eq!(java_path_after_install(None, "/b").as_deref(), Some("/b"));
    assert_eq!(java_path_after_install(Some(s("/mine")), "/b").as_deref(), Some("/mine"));
    let info = installed_java("jre-legacy", s("8u51"), "/b");
    assert!(info.installed && info.version == "8u51");
}

fn jf(rel: &str, kind: &str, dl: bool, raw: Option<&str>, lzma: bool) -> JavaFile {
    JavaFile {
        rel: s(rel),
        kind: s(kind),
        has_downloads: dl,
        raw: raw.map(|u| (s(u), Some(s("h")))),
        has_lzma: lzma,
        executable: Some(true),
    }
}

#[test]
fn java_file_steps() {
    let files = vec![
        jf("bin", "directory", false, None, false),
        jf("bin/java", "file", true, Some("https://u/java"), true),
        jf("no-dl", "file", false, None, false),
        jf("empty", "file", true, None, false),
        jf("lzma-only", "file", true, None, true),
        jf("never", "file", true, Some("https://u/n"), false),
    ];
    let plan = java_file_plan(&files, "/root");
    assert_eq!(plan.total, 5);
    assert_eq!(plan.steps.len(), 4);
    match &plan.steps[0] {
        JavaFileStep::Download { dest, url, executable, .. } => {
            assert_eq!(dest, "/root/bin/java");
            assert_eq!(url, "https://u/java");
            assert!(*executable);
        },
        _ => panic!(),
    }
    assert!(matches!(plan.steps[1], JavaFileStep::Skip));
    assert!(matches!(plan.steps[2], JavaFileStep::Skip));
    assert!(matches!(&plan.steps[3], JavaFileStep::Fail(m) if m == "Java file `lzma-only` only has lzma download"));
    assert_eq!(java_file_progress(0, 5).unwrap().message, "Downloading Java files 0/5");
    assert!(java_file_progress(3, 5).is_none());
    assert!(java_file_progress(4, 5).is_some());
}

#[test]
fn command_decisions() {
    let m = vec![
        ManagedJavaInfo { component: s("a"), version: String::new(), path: String::new(), installed: false },
        ManagedJavaInfo { component: s("b"), version: String::new(), path: s("/b/java"), installed: true },
    ];
    let i = java_info(None, m);
    assert!(i.found);
    assert_eq!(i.path.as_deref(), Some("/b/java"));
    let j = java_info(Some(s("/sys/java")), vec![]);
    assert_eq!(j.path.as_deref(), Some("/sys/java"));
    let k = java_info(None, vec![]);
    assert!(!k.found && k.path.is_none());
    assert_eq!(deleted_profile(None, "inst"), "inst");
    assert_eq!(deleted_profile(Some(s("1.20.1")), "inst"), "1.20.1");
    assert!(profile_still_used("1.20.1", &vec![s("x"), s("1.20.1")]));
    assert!(!profile_still_used("1.20.1", &vec![s("x")]));
    assert_eq!(mod_file_path("/i", "x", "m.jar"), "/i/x/mods/m.jar");
}

#[test]
fn installer_profile_choices() {
    assert_eq!(profile_source(true, true), ProfileSource::VersionFile);
    assert_eq!(profile_source(false, true), ProfileSource::VersionInfo);
    assert_eq!(profile_source(false, false), ProfileSource::Missing);
    assert_eq!(added_inherits_from(false, "1.20.1").as_deref(), Some("1.20.1"));
    assert_eq!(added_inherits_from(true, "1.20.1"), None);
}
