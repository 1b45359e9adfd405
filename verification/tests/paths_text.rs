use cubera::manifest::{maven_path, rule_allows, rule_allows_with_features, Rule};
use cubera::paths::{
    assets_dir, data_dir, data_dir_under, default_height, default_ingame_branding, default_width,
    fallback_settings, instances_dir, java_dir, join_path, libraries_dir, required_dirs,
    settings_path, versions_dir,
};
use cubera::sorting::{sort_strings, text_lt};

#[test]
fn join_path_adds_one_separator() {
    assert_eq!(join_path("/a", "b"), "/a/b");
    assert_eq!(join_path("/a/", "b"), "/a/b");
    assert_eq!(join_path("", "b"), "b");
}

#[test]
fn join_path_absolute_replaces() {
    assert_eq!(join_path("/a", "/etc/x"), "/etc/x");
}

#[test]
fn data_dir_under_platform_dir() {
    assert_eq!(data_dir_under(Some("/home/u/.local/share".to_string())), "/home/u/.local/share/Cubera");
    assert_eq!(data_dir_under(None), "./Cubera");
}

#[test]
fn data_dir_ends_with_cubera() {
    let d = data_dir();
    assert!(d.ends_with("/Cubera"));
    assert!(d.len() > "/Cubera".len());
}

#[test]
fn subdirs_are_inside_data_dir() {
    let d = data_dir();
    assert_eq!(instances_dir(), format!("{d}/instances"));
    assert_eq!(libraries_dir(), format!("{d}/libraries"));
    assert_eq!(assets_dir(), format!("{d}/assets"));
    assert_eq!(versions_dir(), format!("{d}/versions"));
    assert_eq!(java_dir(), format!("{d}/java"));
    assert_eq!(settings_path(), format!("{d}/settings.json"));
}

#[test]
fn required_dirs_in_creation_order() {
    let d = data_dir();
    let r = required_dirs();
    assert_eq!(
        r,
        vec![
            d.clone(),
            format!("{d}/instances"),
            format!("{d}/libraries"),
            format!("{d}/assets"),
            format!("{d}/versions"),
            format!("{d}/java"),
        ]
    );
}

#[test]
fn settings_defaults() {
    assert_eq!(default_width(), 1280);
    assert_eq!(default_height(), 720);
    assert!(default_ingame_branding());
    let s = fallback_settings();
    assert_eq!(s.memory_mb, 4096);
    assert_eq!(s.width, 1280);
    assert_eq!(s.height, 720);
    assert!(s.java_path.is_none());
    assert!(s.accounts.is_empty());
    assert!(s.active_account.is_none());
    assert!(s.last_version.is_none());
    assert!(!s.fullscreen);
    assert_eq!(s.jvm_args, "");
    assert!(!s.ingame_branding);
}

#[test]
fn maven_path_three_parts() {
    assert_eq!(
        maven_path("net.fabricmc:fabric-loader:0.15.0"),
        "net/fabricmc/fabric-loader/0.15.0/fabric-loader-0.15.0.jar"
    );
}

#[test]
fn maven_path_with_classifier() {
    assert_eq!(
        maven_path("org.lwjgl:lwjgl:3.3.3:natives-macos-arm64"),
        "org/lwjgl/lwjgl/3.3.3/lwjgl-3.3.3-natives-macos-arm64.jar"
    );
}

#[test]
fn maven_path_other_shapes_unchanged() {
    assert_eq!(maven_path("just-a-name"), "just-a-name");
    assert_eq!(maven_path("a:b"), "a:b");
}

fn rule(allow: bool, os: Option<&str>, features: Vec<(&str, bool)>) -> Rule {
    Rule {
        allow,
        os_name: os.map(|s| s.to_string()),
        features: features.into_iter().map(|(n, v)| (n.to_string(), v)).collect(),
    }
}

#[test]
fn no_rules_allow() {
    assert!(rule_allows(&vec![], "osx"));
}

#[test]
fn last_applying_rule_decides() {
    let rules = vec![rule(true, None, vec![]), rule(false, Some("osx"), vec![])];
    assert!(!rule_allows(&rules, "osx"));
    assert!(rule_allows(&rules, "linux"));
}

#[test]
fn only_os_specific_allow() {
    let rules = vec![rule(true, Some("windows"), vec![])];
    assert!(!rule_allows(&rules, "osx"));
    assert!(rule_allows(&rules, "windows"));
}

#[test]
fn feature_rules() {
    let rules = vec![rule(true, None, vec![("has_custom_resolution", true)])];
    assert!(rule_allows_with_features(&rules, "osx", &vec![("has_custom_resolution".to_string(), true)]));
    assert!(!rule_allows_with_features(&rules, "osx", &vec![("has_custom_resolution".to_string(), false)]));
    assert!(!rule_allows_with_features(&rules, "osx", &vec![]));
}

#[test]
fn text_order() {
    assert!(text_lt("1.20", "1.21"));
    assert!(text_lt("abc", "abcd"));
    assert!(!text_lt("b", "a"));
    assert!(!text_lt("a", "a"));
}

#[test]
fn strings_sort_ascending() {
    let r = sort_strings(vec!["b".to_string(), "a".to_string(), "c".to_string(), "a".to_string()]);
    assert_eq!(r, vec!["a", "a", "b", "c"]);
}
