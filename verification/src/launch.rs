//! Building the Java command line that starts the game, and choosing which
//! native libraries belong to this Mac.
use vstd::prelude::*;
use crate::manifest::{maven_path, maven_rel_path, rule_allows, rule_allows_with_features, rules_allow, Argument, Artifact, Library};
use crate::paths::{join_path, path_join};
use crate::download::version_file;
use crate::text::{
    find, lemma_find, occurs_at, ascii_lower, concat, concat3, contains, decimal, decimal_string, ends_with, is_ws, join,
    push_all, replace_all, replace_str, rfind_char, rfind_char_vec, split_char, split_on,
    split_whitespace, str_contains, str_ends_with, string_of_range, chars_of, to_ascii_lowercase,
    trim, trim_str, views, words,
};

verus! {

// ---------------------------------------------------------------------------
// Natives
// ---------------------------------------------------------------------------

/// The ASCII-lowercased characters.
pub open spec fn lower_ascii(s: Seq<char>) -> Seq<char> {
    s.map_values(|c: char| ascii_lower(c))
}

/// `str::to_ascii_lowercase`.
pub fn ascii_lowercase(s: &str) -> (r: String)
    ensures
        r@ == lower_ascii(s@),
{
    let v = chars_of(s);
    let mut out: Vec<char> = Vec::new();
    let mut i: usize = 0;
    while i < v.len()
        invariant
            v@ == s@,
            i <= v.len(),
            out@ == lower_ascii(v@.take(i as int)),
        decreases v.len() - i,
    {
        out.push(to_ascii_lowercase(v[i]));
        i = i + 1;
        assert(out@ =~= lower_ascii(v@.take(i as int)));
    }
    assert(v@.take(v.len() as int) =~= v@);
    crate::text::string_of(&out)
}

/// A classifier key names macOS natives for this machine's architecture:
/// it mentions `natives-osx` or `natives-macos` (in any ASCII case), and
/// mentions `arm64` exactly when the machine is an ARM64 Mac.
pub open spec fn macos_classifier(key: Seq<char>, arm64: bool) -> bool {
    let k = lower_ascii(key);
    (contains(k, "natives-osx"@) || contains(k, "natives-macos"@)) && (if arm64 {
        contains(k, "arm64"@)
    } else {
        !contains(k, "arm64"@)
    })
}

/// Whether a classifier key names macOS natives for this architecture.
pub fn classifier_matches_macos(key: &str, arm64: bool) -> (r: bool)
    ensures
        r == macos_classifier(key@, arm64),
{
    let k = ascii_lowercase(key);
    if !(str_contains(k.as_str(), "natives-osx") || str_contains(k.as_str(), "natives-macos")) {
        return false;
    }
    if arm64 {
        str_contains(k.as_str(), "arm64")
    } else {
        !str_contains(k.as_str(), "arm64")
    }
}

/// The fourth `:`-separated part of a library name, or nothing.
pub open spec fn fourth_part(name: Seq<char>) -> Seq<char> {
    let p = split_char(name, ':');
    if p.len() > 3 {
        p[3]
    } else {
        Seq::empty()
    }
}

/// A separately published natives artifact (`group:artifact:version:classifier`)
/// is for this Mac when its classifier, or its whole name, says so.
pub fn native_classifier_matches_macos(name: &str, arm64: bool) -> (r: bool)
    ensures
        r == (macos_classifier(fourth_part(name@), arm64) || macos_classifier(name@, arm64)),
{
    let parts = split_on(name, ':');
    let classifier = if parts.len() > 3 {
        parts[3].clone()
    } else {
        String::new()
    };
    assert(parts.len() > 3 ==> views(parts@)[3] == parts@[3]@);
    classifier_matches_macos(classifier.as_str(), arm64) || classifier_matches_macos(name, arm64)
}

/// The part of a path after its last `/`.
pub open spec fn last_segment(name: Seq<char>) -> Seq<char> {
    match rfind_char(name, '/') {
        Some(i) => name.skip(i + 1),
        None => name,
    }
}

/// A jar entry is a native library for this machine: not a directory, not
/// under `META-INF`, ending (in any ASCII case) with `.dylib`, `.jnilib`,
/// `.so` or `.dll`, and not in a folder for the other architecture.
pub open spec fn native_entry_wanted(name: Seq<char>, arm64: bool, x86_64: bool) -> bool {
    let lower = lower_ascii(name);
    &&& !ends_with(name, "/"@)
    &&& !contains(name, "META-INF"@)
    &&& (ends_with(lower, ".dylib"@) || ends_with(lower, ".jnilib"@) || ends_with(lower, ".so"@)
        || ends_with(lower, ".dll"@))
    &&& !(arm64 && (contains(lower, "/x64/"@) || contains(lower, "/x86/"@)) && !contains(lower, "/arm64/"@))
    &&& !(x86_64 && contains(lower, "/arm64/"@))
}

/// The file name under which a jar entry is extracted into the natives
/// directory, or nothing when the entry is skipped.
pub fn native_entry_file(name: &str, arm64: bool, x86_64: bool) -> (r: Option<String>)
    ensures
        r is Some <==> native_entry_wanted(name@, arm64, x86_64),
        r matches Some(f) ==> f@ == last_segment(name@),
{
    if str_ends_with(name, "/") || str_contains(name, "META-INF") {
        return None;
    }
    let lower = ascii_lowercase(name);
    let l = lower.as_str();
    let is_native = str_ends_with(l, ".dylib") || str_ends_with(l, ".jnilib") || str_ends_with(l, ".so")
        || str_ends_with(l, ".dll");
    if !is_native {
        return None;
    }
    if arm64 && (str_contains(l, "/x64/") || str_contains(l, "/x86/")) && !str_contains(l, "/arm64/") {
        return None;
    }
    if x86_64 && str_contains(l, "/arm64/") {
        return None;
    }
    let v = chars_of(name);
    match rfind_char_vec(&v, '/') {
        Some(i) => {
            let f = string_of_range(&v, i + 1, v.len());
            assert(v@.subrange(i + 1, v@.len() as int) =~= v@.skip(i + 1));
            Some(f)
        },
        None => Some(String::from_str(name)),
    }
}

// ---------------------------------------------------------------------------
// Placeholders
// ---------------------------------------------------------------------------

/// The values that placeholders in launch arguments stand for.
#[derive(Debug, Clone)]
pub struct LaunchContext {
    pub player_name: String,
    pub player_uuid: String,
    pub access_token: String,
    pub offline: bool,
    pub version_id: String,
    pub game_dir: String,
    pub assets_root: String,
    pub asset_index: String,
    pub natives_dir: String,
    pub classpath: String,
    pub libraries_dir: String,
    pub width: u32,
    pub height: u32,
}

/// The user type reported to the game.
pub open spec fn user_type(offline: bool) -> Seq<char> {
    if offline {
        "legacy"@
    } else {
        "msa"@
    }
}

/// The placeholders of a launch argument replaced, one after another, in
/// this order: player name, version, game directory, assets root, asset
/// index, UUID, access token, client id, XUID, user type, version type,
/// natives directory, launcher name and version, classpath, library
/// directory, classpath separator, window width and height.
#[verifier::opaque]
pub open spec fn tokens_replaced(s: Seq<char>, c: LaunchContext) -> Seq<char> {
    let s1 = replace_all(s, "${auth_player_name}"@, c.player_name@);
    let s2 = replace_all(s1, "${version_name}"@, c.version_id@);
    let s3 = replace_all(s2, "${game_directory}"@, c.game_dir@);
    let s4 = replace_all(s3, "${assets_root}"@, c.assets_root@);
    let s5 = replace_all(s4, "${assets_index_name}"@, c.asset_index@);
    let s6 = replace_all(s5, "${auth_uuid}"@, c.player_uuid@);
    let s7 = replace_all(s6, "${auth_access_token}"@, c.access_token@);
    let s8 = replace_all(s7, "${clientid}"@, "cubera"@);
    let s9 = replace_all(s8, "${auth_xuid}"@, "0"@);
    let s10 = replace_all(s9, "${user_type}"@, user_type(c.offline));
    let s11 = replace_all(s10, "${version_type}"@, "Cubera"@);
    let s12 = replace_all(s11, "${natives_directory}"@, c.natives_dir@);
    let s13 = replace_all(s12, "${launcher_name}"@, "Cubera"@);
    let s14 = replace_all(s13, "${launcher_version}"@, "0.1.0"@);
    let s15 = replace_all(s14, "${classpath}"@, c.classpath@);
    let s16 = replace_all(s15, "${library_directory}"@, c.libraries_dir@);
    let s17 = replace_all(s16, "${classpath_separator}"@, ":"@);
    let s18 = replace_all(s17, "${resolution_width}"@, decimal(c.width as nat));
    replace_all(s18, "${resolution_height}"@, decimal(c.height as nat))
}

/// A launch argument with its placeholders filled in.
pub fn replace_tokens(s: &str, c: &LaunchContext) -> (r: String)
    ensures
        r@ == tokens_replaced(s@, *c),
{
    proof {
        reveal(tokens_replaced);
        reveal_strlit("${auth_player_name}");
        reveal_strlit("${version_name}");
        reveal_strlit("${game_directory}");
        reveal_strlit("${assets_root}");
        reveal_strlit("${assets_index_name}");
        reveal_strlit("${auth_uuid}");
        reveal_strlit("${auth_access_token}");
        reveal_strlit("${clientid}");
        reveal_strlit("${auth_xuid}");
        reveal_strlit("${user_type}");
        reveal_strlit("${version_type}");
        reveal_strlit("${natives_directory}");
        reveal_strlit("${launcher_name}");
        reveal_strlit("${launcher_version}");
        reveal_strlit("${classpath}");
        reveal_strlit("${library_directory}");
        reveal_strlit("${classpath_separator}");
        reveal_strlit("${resolution_width}");
        reveal_strlit("${resolution_height}");
    }
    let s1 = replace_str(s, "${auth_player_name}", c.player_name.as_str());
    let s2 = replace_str(s1.as_str(), "${version_name}", c.version_id.as_str());
    let s3 = replace_str(s2.as_str(), "${game_directory}", c.game_dir.as_str());
    let s4 = replace_str(s3.as_str(), "${assets_root}", c.assets_root.as_str());
    let s5 = replace_str(s4.as_str(), "${assets_index_name}", c.asset_index.as_str());
    let s6 = replace_str(s5.as_str(), "${auth_uuid}", c.player_uuid.as_str());
    let s7 = replace_str(s6.as_str(), "${auth_access_token}", c.access_token.as_str());
    let s8 = replace_str(s7.as_str(), "${clientid}", "cubera");
    let s9 = replace_str(s8.as_str(), "${auth_xuid}", "0");
    let ut = if c.offline { "legacy" } else { "msa" };
    let s10 = replace_str(s9.as_str(), "${user_type}", ut);
    let s11 = replace_str(s10.as_str(), "${version_type}", "Cubera");
    let s12 = replace_str(s11.as_str(), "${natives_directory}", c.natives_dir.as_str());
    let s13 = replace_str(s12.as_str(), "${launcher_name}", "Cubera");
    let s14 = replace_str(s13.as_str(), "${launcher_version}", "0.1.0");
    let s15 = replace_str(s14.as_str(), "${classpath}", c.classpath.as_str());
    let s16 = replace_str(s15.as_str(), "${library_directory}", c.libraries_dir.as_str());
    let s17 = replace_str(s16.as_str(), "${classpath_separator}", ":");
    let w = decimal_string(c.width as u64);
    let s18 = replace_str(s17.as_str(), "${resolution_width}", w.as_str());
    let h = decimal_string(c.height as u64);
    replace_str(s18.as_str(), "${resolution_height}", h.as_str())
}

/// The launch arguments a list expands to: plain arguments always, guarded
/// ones when their rules allow them on this system with these features,
/// each with its placeholders filled in.
pub open spec fn expanded(args: Seq<Argument>, c: LaunchContext, os: Seq<char>, features: Seq<(String, bool)>) -> Seq<Seq<char>>
    decreases args.len(),
{
    if args.len() == 0 {
        Seq::empty()
    } else {
        let before = expanded(args.drop_last(), c, os, features);
        match args.last() {
            Argument::Plain(s) => before.push(tokens_replaced(s@, c)),
            Argument::Guarded { rules, values } => if rules_allow(rules@, os, features) {
                before + views(values@).map_values(|v: Seq<char>| tokens_replaced(v, c))
            } else {
                before
            },
        }
    }
}

/// Every value with its placeholders filled in.
fn replace_all_tokens(values: &Vec<String>, c: &LaunchContext) -> (r: Vec<String>)
    ensures
        views(r@) == views(values@).map_values(|v: Seq<char>| tokens_replaced(v, *c)),
{
    let mut out: Vec<String> = Vec::new();
    let mut k: usize = 0;
    while k < values.len()
        invariant
            k <= values.len(),
            views(out@) == views(values@).take(k as int).map_values(|v: Seq<char>| tokens_replaced(v, *c)),
        decreases values.len() - k,
    {
        let ghost prev = out@;
        let t = replace_tokens(values[k].as_str(), c);
        out.push(t);
        proof {
            crate::text::lemma_views_push(prev, t);
            assert(views(values@)[k as int] == values@[k as int]@);
        }
        k = k + 1;
        assert(views(out@) =~= views(values@).take(k as int).map_values(|v: Seq<char>| tokens_replaced(v, *c)));
    }
    assert(views(values@).take(values.len() as int) =~= views(values@));
    out
}

/// Appends all of `extra` to `out`.
fn append_all(out: &mut Vec<String>, extra: Vec<String>)
    ensures
        views(final(out)@) == views(old(out)@) + views(extra@),
{
    let mut k: usize = 0;
    while k < extra.len()
        invariant
            k <= extra.len(),
            views(out@) == views(old(out)@) + views(extra@).take(k as int),
        decreases extra.len() - k,
    {
        let ghost prev = out@;
        let t = extra[k].clone();
        out.push(t);
        proof {
            crate::text::lemma_views_push(prev, t);
            assert(views(extra@)[k as int] == extra@[k as int]@);
        }
        k = k + 1;
        assert(views(out@) =~= views(old(out)@) + views(extra@).take(k as int));
    }
    assert(views(extra@).take(extra.len() as int) =~= views(extra@));
}

/// Expands a list of launch arguments.
pub fn expand_args(
    args: &Vec<Argument>,
    c: &LaunchContext,
    os: &str,
    features: &Vec<(String, bool)>,
) -> (r: Vec<String>)
    ensures
        views(r@) == expanded(args@, *c, os@, features@),
{
    let mut out: Vec<String> = Vec::new();
    let mut i: usize = 0;
    while i < args.len()
        invariant
            i <= args.len(),
            views(out@) == expanded(args@.take(i as int), *c, os@, features@),
        decreases args.len() - i,
    {
        assert(args@.take(i + 1).drop_last() =~= args@.take(i as int));
        assert(args@.take(i + 1).last() == args@[i as int]);
        let ghost prev = views(out@);
        match &args[i] {
            Argument::Plain(s) => {
                out.push(replace_tokens(s.as_str(), c));
                assert(views(out@) =~= prev.push(tokens_replaced(s@, *c)));
            },
            Argument::Guarded { rules, values } => {
                if rule_allows_with_features(rules, os, features) {
                    let filled = replace_all_tokens(values, c);
                    append_all(&mut out, filled);
                }
            },
        }
        i = i + 1;
    }
    assert(args@.take(args.len() as int) =~= args@);
    out
}


// ---------------------------------------------------------------------------
// The command line
// ---------------------------------------------------------------------------

/// What the launch arguments are made of, besides the placeholder values.
#[derive(Debug, Clone)]
pub struct LaunchPlan {
    /// Maximum heap in megabytes.
    pub memory_mb: u32,
    /// The user's extra JVM arguments, separated by whitespace.
    pub extra_jvm_args: String,
    pub fullscreen: bool,
    /// Arguments that brand the Dock entry (empty off macOS).
    pub dock_args: Vec<String>,
    /// The profile's modern JVM arguments, if it has them.
    pub jvm_arguments: Option<Vec<Argument>>,
    /// The profile's modern game arguments, if it has them.
    pub game_arguments: Option<Vec<Argument>>,
    /// The profile's legacy `minecraftArguments` string, if it has one.
    pub legacy_arguments: Option<String>,
    pub main_class: String,
}

/// The window size used: at least 640 by 480.
pub fn window_size(width: u32, height: u32) -> (r: (u32, u32))
    ensures
        r.0 == if width >= 640 { width } else { 640 },
        r.1 == if height >= 480 { height } else { 480 },
{
    let w = if width >= 640 { width } else { 640 };
    let h = if height >= 480 { height } else { 480 };
    (w, h)
}

/// The asset index named on the command line: the profile's asset index
/// id, else its `assets` name, else `legacy`.
pub fn asset_index_name(index_id: Option<String>, assets: Option<String>) -> (r: String)
    ensures
        r@ == match index_id {
            Some(i) => i@,
            None => match assets {
                Some(a) => a@,
                None => "legacy"@,
            },
        },
{
    match index_id {
        Some(i) => i,
        None => match assets {
            Some(a) => a,
            None => String::from_str("legacy"),
        },
    }
}

/// The feature flags that argument rules are checked against: only a
/// custom resolution can be on, and it is on unless the game runs fullscreen.
pub fn launch_features(fullscreen: bool) -> (r: Vec<(String, bool)>)
    ensures
        r@.len() == 6,
        r@[0].0@ == "has_custom_resolution"@ && r@[0].1 == !fullscreen,
        r@[1].0@ == "is_demo_user"@ && !r@[1].1,
        r@[2].0@ == "has_quick_plays_support"@ && !r@[2].1,
        r@[3].0@ == "is_quick_play_singleplayer"@ && !r@[3].1,
        r@[4].0@ == "is_quick_play_multiplayer"@ && !r@[4].1,
        r@[5].0@ == "is_quick_play_realms"@ && !r@[5].1,
{
    let mut r: Vec<(String, bool)> = Vec::new();
    r.push((String::from_str("has_custom_resolution"), !fullscreen));
    r.push((String::from_str("is_demo_user"), false));
    r.push((String::from_str("has_quick_plays_support"), false));
    r.push((String::from_str("is_quick_play_singleplayer"), false));
    r.push((String::from_str("is_quick_play_multiplayer"), false));
    r.push((String::from_str("is_quick_play_realms"), false));
    r
}

/// The heap and launcher-brand arguments that open every JVM command line.
pub open spec fn memory_args(memory_mb: u32) -> Seq<Seq<char>> {
    let initial: nat = if memory_mb / 4 >= 512 { (memory_mb / 4) as nat } else { 512 };
    seq![
        "-Xmx"@ + decimal(memory_mb as nat) + "M"@,
        "-Xms"@ + decimal(initial) + "M"@,
        "-Dminecraft.launcher.brand=Cubera"@,
        "-Dminecraft.launcher.version=0.1.0"@,
    ]
}

/// The list names a classpath with `-cp` or `-classpath`.
pub open spec fn has_classpath_flag(args: Seq<Seq<char>>) -> bool {
    args.contains("-cp"@) || args.contains("-classpath"@)
}

/// The JVM arguments before the classpath check and the main class.
pub open spec fn jvm_args_base(p: LaunchPlan, c: LaunchContext, os: Seq<char>, f: Seq<(String, bool)>) -> Seq<Seq<char>> {
    memory_args(p.memory_mb) + views(p.dock_args@)
        + (if p.jvm_arguments is None {
            seq!["-Djava.library.path="@ + crate::paths::path_join(c.natives_dir@, "java"@)]
        } else {
            Seq::empty()
        })
        + (if trim(p.extra_jvm_args@).len() > 0 { words(p.extra_jvm_args@) } else { Seq::empty() })
        + match p.jvm_arguments {
            Some(a) => expanded(a@, c, os, f),
            None => seq!["-cp"@, c.classpath@],
        }
}

/// The JVM part of the command line: heap sizes, launcher brand, Dock
/// branding, the natives path for profiles without modern JVM arguments,
/// the user's extra arguments, the profile's JVM arguments (or a
/// classpath), a classpath if none was named yet, and the main class last.
pub open spec fn jvm_command(p: LaunchPlan, c: LaunchContext, os: Seq<char>, f: Seq<(String, bool)>) -> Seq<Seq<char>> {
    let b = jvm_args_base(p, c, os, f);
    (if has_classpath_flag(b) { b } else { b + seq!["-cp"@, c.classpath@] }).push(p.main_class@)
}

/// The game arguments used when a profile lists none.
pub open spec fn default_game_args(c: LaunchContext) -> Seq<Seq<char>> {
    seq![
        "--username"@, c.player_name@, "--version"@, c.version_id@, "--gameDir"@, c.game_dir@,
        "--assetsDir"@, c.assets_root@, "--assetIndex"@, c.asset_index@, "--uuid"@, c.player_uuid@,
        "--accessToken"@, c.access_token@, "--userType"@, user_type(c.offline), "--versionType"@, "Cubera"@,
    ]
}

/// The game arguments before the window options.
pub open spec fn game_args_base(p: LaunchPlan, c: LaunchContext, os: Seq<char>, f: Seq<(String, bool)>) -> Seq<Seq<char>> {
    match p.game_arguments {
        Some(a) => expanded(a@, c, os, f),
        None => match p.legacy_arguments {
            Some(l) => words(l@).map_values(|w: Seq<char>| tokens_replaced(w, c)),
            None => default_game_args(c),
        },
    }
}

/// The arguments other than `x`, in order.
pub open spec fn without_arg(args: Seq<Seq<char>>, x: Seq<char>) -> Seq<Seq<char>>
    decreases args.len(),
{
    if args.len() == 0 {
        Seq::empty()
    } else {
        let before = without_arg(args.drop_last(), x);
        if args.last() == x { before } else { before.push(args.last()) }
    }
}

/// The window options applied to the game arguments: fullscreen adds
/// `--fullscreen` once; otherwise `--fullscreen` is dropped and a window
/// size is added unless one is given.
pub open spec fn with_window(args: Seq<Seq<char>>, fullscreen: bool, width: u32, height: u32) -> Seq<Seq<char>> {
    if fullscreen {
        if args.contains("--fullscreen"@) { args } else { args.push("--fullscreen"@) }
    } else {
        let kept = without_arg(args, "--fullscreen"@);
        if kept.contains("--width"@) {
            kept
        } else {
            kept + seq!["--width"@, decimal(width as nat), "--height"@, decimal(height as nat)]
        }
    }
}

/// The game part of the command line.
pub open spec fn game_command(p: LaunchPlan, c: LaunchContext, os: Seq<char>, f: Seq<(String, bool)>) -> Seq<Seq<char>> {
    with_window(game_args_base(p, c, os, f), p.fullscreen, c.width, c.height)
}

/// Whether `s` is one of the arguments.
pub fn has_arg(args: &Vec<String>, s: &str) -> (r: bool)
    ensures
        r == views(args@).contains(s@),
{
    let mut i: usize = 0;
    while i < args.len()
        invariant
            i <= args.len(),
            forall|j: int| 0 <= j < i ==> args@[j]@ != s@,
        decreases args.len() - i,
    {
        if crate::text::str_eq(args[i].as_str(), s) {
            assert(views(args@)[i as int] == s@);
            return true;
        }
        i = i + 1;
    }
    assert forall|j: int| 0 <= j < views(args@).len() implies views(args@)[j] != s@ by {
        assert(views(args@)[j] == args@[j]@);
    }
    false
}

/// Appends an owned string.
fn push_arg(out: &mut Vec<String>, s: String)
    ensures
        views(final(out)@) == views(old(out)@).push(s@),
{
    let ghost prev = out@;
    out.push(s);
    proof {
        crate::text::lemma_views_push(prev, s);
    }
}

/// The heap and launcher-brand arguments.
fn memory_arguments(memory_mb: u32) -> (r: Vec<String>)
    ensures
        views(r@) == memory_args(memory_mb),
{
    proof {
        reveal_strlit("-Xmx");
        reveal_strlit("-Xms");
        reveal_strlit("M");
    }
    let mut r: Vec<String> = Vec::new();
    let mx = decimal_string(memory_mb as u64);
    push_arg(&mut r, concat3("-Xmx", mx.as_str(), "M"));
    let quarter = memory_mb / 4;
    let initial: u32 = if quarter >= 512 { quarter } else { 512 };
    let ms = decimal_string(initial as u64);
    push_arg(&mut r, concat3("-Xms", ms.as_str(), "M"));
    push_arg(&mut r, String::from_str("-Dminecraft.launcher.brand=Cubera"));
    push_arg(&mut r, String::from_str("-Dminecraft.launcher.version=0.1.0"));
    assert(views(r@) =~= memory_args(memory_mb));
    r
}

/// The arguments other than `x`.
fn drop_arg(args: &Vec<String>, x: &str) -> (r: Vec<String>)
    ensures
        views(r@) == without_arg(views(args@), x@),
{
    let mut r: Vec<String> = Vec::new();
    let mut i: usize = 0;
    while i < args.len()
        invariant
            i <= args.len(),
            views(r@) == without_arg(views(args@).take(i as int), x@),
        decreases args.len() - i,
    {
        assert(views(args@).take(i + 1).drop_last() =~= views(args@).take(i as int));
        assert(views(args@).take(i + 1).last() == args@[i as int]@);
        if !crate::text::str_eq(args[i].as_str(), x) {
            push_arg(&mut r, args[i].clone());
        }
        i = i + 1;
    }
    assert(views(args@).take(args.len() as int) =~= views(args@));
    r
}

/// The JVM and game arguments that start the game.
pub fn launch_arguments(
    p: &LaunchPlan,
    c: &LaunchContext,
    os: &str,
    features: &Vec<(String, bool)>,
) -> (r: (Vec<String>, Vec<String>))
    ensures
        views(r.0@) == jvm_command(*p, *c, os@, features@),
        views(r.1@) == game_command(*p, *c, os@, features@),
{
    proof {
        reveal_strlit("-Djava.library.path=");
        reveal_strlit("java");
        reveal_strlit("-cp");
        reveal_strlit("-classpath");
        reveal_strlit("--fullscreen");
        reveal_strlit("--width");
        reveal_strlit("--height");
    }
    // JVM arguments.
    let mut jvm = memory_arguments(p.memory_mb);
    let ghost after_mem = views(jvm@);
    append_all(&mut jvm, p.dock_args.clone());
    let ghost after_dock = views(jvm@);
    if p.jvm_arguments.is_none() {
        let java = crate::paths::join_path(c.natives_dir.as_str(), "java");
        push_arg(&mut jvm, concat("-Djava.library.path=", java.as_str()));
    }
    let ghost after_lib = views(jvm@);
    let trimmed = trim_str(p.extra_jvm_args.as_str());
    if !trimmed.as_str().is_empty() {
        append_all(&mut jvm, split_whitespace(p.extra_jvm_args.as_str()));
    }
    let ghost after_user = views(jvm@);
    match &p.jvm_arguments {
        Some(a) => {
            append_all(&mut jvm, expand_args(a, c, os, features));
        },
        None => {
            push_arg(&mut jvm, String::from_str("-cp"));
            push_arg(&mut jvm, c.classpath.clone());
        },
    }
    assert(views(jvm@) =~= jvm_args_base(*p, *c, os@, features@));
    if !(has_arg(&jvm, "-cp") || has_arg(&jvm, "-classpath")) {
        push_arg(&mut jvm, String::from_str("-cp"));
        push_arg(&mut jvm, c.classpath.clone());
    }
    push_arg(&mut jvm, p.main_class.clone());
    assert(views(jvm@) =~= jvm_command(*p, *c, os@, features@));

    // Game arguments.
    let mut game: Vec<String> = match &p.game_arguments {
        Some(a) => expand_args(a, c, os, features),
        None => match &p.legacy_arguments {
            Some(l) => {
                let ws = split_whitespace(l.as_str());
                replace_all_tokens(&ws, c)
            },
            None => default_game_arguments(c),
        },
    };
    assert(views(game@) == game_args_base(*p, *c, os@, features@));
    if p.fullscreen {
        if !has_arg(&game, "--fullscreen") {
            push_arg(&mut game, String::from_str("--fullscreen"));
        }
    } else {
        game = drop_arg(&game, "--fullscreen");
        if !has_arg(&game, "--width") {
            push_arg(&mut game, String::from_str("--width"));
            push_arg(&mut game, decimal_string(c.width as u64));
            push_arg(&mut game, String::from_str("--height"));
            push_arg(&mut game, decimal_string(c.height as u64));
        }
    }
    assert(views(game@) =~= game_command(*p, *c, os@, features@));
    (jvm, game)
}

/// The game arguments used when a profile lists none.
fn default_game_arguments(c: &LaunchContext) -> (r: Vec<String>)
    ensures
        views(r@) == default_game_args(*c),
{
    let mut r: Vec<String> = Vec::new();
    push_arg(&mut r, String::from_str("--username"));
    push_arg(&mut r, c.player_name.clone());
    push_arg(&mut r, String::from_str("--version"));
    push_arg(&mut r, c.version_id.clone());
    push_arg(&mut r, String::from_str("--gameDir"));
    push_arg(&mut r, c.game_dir.clone());
    push_arg(&mut r, String::from_str("--assetsDir"));
    push_arg(&mut r, c.assets_root.clone());
    push_arg(&mut r, String::from_str("--assetIndex"));
    push_arg(&mut r, c.asset_index.clone());
    push_arg(&mut r, String::from_str("--uuid"));
    push_arg(&mut r, c.player_uuid.clone());
    push_arg(&mut r, String::from_str("--accessToken"));
    push_arg(&mut r, c.access_token.clone());
    push_arg(&mut r, String::from_str("--userType"));
    push_arg(&mut r, String::from_str(if c.offline { "legacy" } else { "msa" }));
    push_arg(&mut r, String::from_str("--versionType"));
    push_arg(&mut r, String::from_str("Cubera"));
    assert(views(r@) =~= default_game_args(*c));
    r
}


/// `without_arg` removes every copy of `x` and keeps only elements of `args`.
pub proof fn lemma_without_arg(args: Seq<Seq<char>>, x: Seq<char>)
    ensures
        !without_arg(args, x).contains(x),
    decreases args.len(),
{
    if args.len() > 0 {
        lemma_without_arg(args.drop_last(), x);
        let before = without_arg(args.drop_last(), x);
        if args.last() != x {
            assert forall|i: int| 0 <= i < before.push(args.last()).len() implies before.push(args.last())[i] != x by {
                if i < before.len() {
                    assert(before.push(args.last())[i] == before[i]);
                }
            }
        }
    }
}

/// Law: the JVM command line always names a classpath and ends with the
/// main class.
pub proof fn lemma_jvm_command_has_classpath_and_main(p: LaunchPlan, c: LaunchContext, os: Seq<char>, f: Seq<(String, bool)>)
    ensures
        has_classpath_flag(jvm_command(p, c, os, f)),
        jvm_command(p, c, os, f).last() == p.main_class@,
{
    let b = jvm_args_base(p, c, os, f);
    let full = if has_classpath_flag(b) { b } else { b + seq!["-cp"@, c.classpath@] };
    if has_classpath_flag(b) {
        if b.contains("-cp"@) {
            let i = choose|i: int| 0 <= i < b.len() && b[i] == "-cp"@;
            assert(full.push(p.main_class@)[i] == "-cp"@);
        } else {
            let i = choose|i: int| 0 <= i < b.len() && b[i] == "-classpath"@;
            assert(full.push(p.main_class@)[i] == "-classpath"@);
        }
    } else {
        assert(full.push(p.main_class@)[b.len() as int] == "-cp"@);
    }
}

/// Law: a fullscreen launch passes `--fullscreen`; a windowed launch never
/// does and always passes a window width.
pub proof fn lemma_window_options(args: Seq<Seq<char>>, fullscreen: bool, width: u32, height: u32)
    ensures
        fullscreen ==> with_window(args, fullscreen, width, height).contains("--fullscreen"@),
        !fullscreen ==> !with_window(args, fullscreen, width, height).contains("--fullscreen"@)
            && with_window(args, fullscreen, width, height).contains("--width"@),
{
    if fullscreen {
        if !args.contains("--fullscreen"@) {
            assert(args.push("--fullscreen"@)[args.len() as int] == "--fullscreen"@);
        }
    } else {
        let kept = without_arg(args, "--fullscreen"@);
        lemma_without_arg(args, "--fullscreen"@);
        if !kept.contains("--width"@) {
            let all = kept + seq!["--width"@, decimal(width as nat), "--height"@, decimal(height as nat)];
            assert(all[kept.len() as int] == "--width"@);
            assert forall|i: int| 0 <= i < all.len() implies all[i] != "--fullscreen"@ by {
                if i < kept.len() {
                    assert(all[i] == kept[i]);
                } else {
                    reveal_strlit("--fullscreen");
                    reveal_strlit("--width");
                    reveal_strlit("--height");
                    let fs: Seq<char> = "--fullscreen"@;
                    assert(fs.len() == 12 && fs[0] == '-');
                    if i == kept.len() {
                        assert(all[i].len() == 7);
                    } else if i == kept.len() + 2 {
                        assert(all[i].len() == 8);
                    } else if i == kept.len() + 1 {
                        lemma_decimal_digits(width as nat);
                        assert(all[i] == decimal(width as nat));
                        assert(all[i][0] != fs[0]);
                    } else {
                        lemma_decimal_digits(height as nat);
                        assert(all[i] == decimal(height as nat));
                        assert(all[i][0] != fs[0]);
                    }
                }
            }
        }
    }
}

/// A decimal rendering starts with a digit.
pub proof fn lemma_decimal_digits(n: nat)
    ensures
        decimal(n).len() > 0,
        '0' <= decimal(n)[0] <= '9',
    decreases n,
{
    if n >= 10 {
        lemma_decimal_digits(n / 10);
    } else {
        assert((n + 48) as u32 <= 57);
    }
}


/// No position of `s` in `from..to` holds `c`.
pub open spec fn free_of(s: Seq<char>, c: char, from: int, to: int) -> bool
    decreases to - from,
{
    if from >= to {
        true
    } else {
        s[from] != c && free_of(s, c, from + 1, to)
    }
}

/// A text without `$`, so without any placeholder.
pub open spec fn no_dollar(s: Seq<char>) -> bool {
    free_of(s, '$', 0, s.len() as int)
}

/// A placeholder `${...}`: `$` only at its start, `}` only at its end.
pub open spec fn is_placeholder(t: Seq<char>) -> bool {
    &&& t.len() >= 2
    &&& t[0] == '$'
    &&& t[t.len() - 1] == '}'
    &&& free_of(t, '$', 1, t.len() as int)
    &&& free_of(t, '}', 0, t.len() - 1)
}

proof fn lemma_free_of(s: Seq<char>, c: char, from: int, to: int)
    requires
        free_of(s, c, from, to),
    ensures
        forall|j: int| from <= j < to ==> s[j] != c,
    decreases to - from,
{
    if from < to {
        lemma_free_of(s, c, from + 1, to);
    }
}

/// Replacing a pattern that does not occur changes nothing.
proof fn lemma_replace_absent(s: Seq<char>, from: Seq<char>, to: Seq<char>)
    requires
        forall|j: int| !occurs_at(s, from, j),
    ensures
        replace_all(s, from, to) == s,
{
    lemma_find(s, from);
}

/// Replacing a whole text by itself gives the replacement.
proof fn lemma_replace_whole(t: Seq<char>, to: Seq<char>)
    requires
        t.len() > 0,
    ensures
        replace_all(t, t, to) == to,
{
    assert(t.subrange(0, t.len() as int) =~= t);
    assert(occurs_at(t, t, 0));
    assert(find(t, t) == Some(0int));
    let e = t.skip(t.len() as int);
    assert(e =~= Seq::<char>::empty());
    assert(find(e, t) is None);
    assert(replace_all(e, t, to) == e);
    assert(t.take(0) =~= Seq::<char>::empty());
    assert(replace_all(t, t, to) =~= to);
}

/// A placeholder does not occur in a text without `$`.
proof fn lemma_placeholder_not_in_plain(v: Seq<char>, u: Seq<char>)
    requires
        no_dollar(v),
        is_placeholder(u),
    ensures
        forall|j: int| !occurs_at(v, u, j),
{
    lemma_free_of(v, '$', 0, v.len() as int);
    assert forall|j: int| !occurs_at(v, u, j) by {
        if occurs_at(v, u, j) {
            assert(v.subrange(j, j + u.len())[0] == v[j]);
        }
    }
}

/// One placeholder does not occur in another.
proof fn lemma_placeholder_not_in_other(t: Seq<char>, u: Seq<char>)
    requires
        is_placeholder(t),
        is_placeholder(u),
        t != u,
    ensures
        forall|j: int| !occurs_at(t, u, j),
{
    lemma_free_of(t, '$', 1, t.len() as int);
    lemma_free_of(t, '}', 0, t.len() - 1);
    assert forall|j: int| !occurs_at(t, u, j) by {
        if occurs_at(t, u, j) {
            let w = t.subrange(j, j + u.len());
            assert(w[0] == t[j]);
            assert(j == 0);
            assert(w[u.len() - 1] == t[u.len() - 1]);
            assert(u.len() == t.len());
            assert(w =~= t);
        }
    }
}

/// The replacements of `tokens_replaced`, in the order they are made.
pub open spec fn replacements(c: LaunchContext) -> Seq<(Seq<char>, Seq<char>)> {
    seq![
        ("${auth_player_name}"@, c.player_name@),
        ("${version_name}"@, c.version_id@),
        ("${game_directory}"@, c.game_dir@),
        ("${assets_root}"@, c.assets_root@),
        ("${assets_index_name}"@, c.asset_index@),
        ("${auth_uuid}"@, c.player_uuid@),
        ("${auth_access_token}"@, c.access_token@),
        ("${clientid}"@, "cubera"@),
        ("${auth_xuid}"@, "0"@),
        ("${user_type}"@, user_type(c.offline)),
        ("${version_type}"@, "Cubera"@),
        ("${natives_directory}"@, c.natives_dir@),
        ("${launcher_name}"@, "Cubera"@),
        ("${launcher_version}"@, "0.1.0"@),
        ("${classpath}"@, c.classpath@),
        ("${library_directory}"@, c.libraries_dir@),
        ("${classpath_separator}"@, ":"@),
        ("${resolution_width}"@, decimal(c.width as nat)),
        ("${resolution_height}"@, decimal(c.height as nat)),
    ]
}

/// The first `n` replacements of `l` made on `s`, in order.
pub open spec fn filled(s: Seq<char>, l: Seq<(Seq<char>, Seq<char>)>, n: nat) -> Seq<char>
    decreases n,
{
    if n == 0 {
        s
    } else {
        replace_all(filled(s, l, (n - 1) as nat), l[n - 1].0, l[n - 1].1)
    }
}

/// The first `n` replacements replace placeholders by texts without `$`.
pub open spec fn well_formed_upto(l: Seq<(Seq<char>, Seq<char>)>, n: nat) -> bool
    decreases n,
{
    if n == 0 {
        true
    } else {
        well_formed_upto(l, (n - 1) as nat) && is_placeholder(l[n - 1].0) && no_dollar(l[n - 1].1)
    }
}

/// None of the first `n` replacements is for `t`.
pub open spec fn differs_upto(l: Seq<(Seq<char>, Seq<char>)>, n: nat, t: Seq<char>) -> bool
    decreases n,
{
    if n == 0 {
        true
    } else {
        differs_upto(l, (n - 1) as nat, t) && l[n - 1].0 != t
    }
}

proof fn lemma_filled_plain(v: Seq<char>, l: Seq<(Seq<char>, Seq<char>)>, n: nat)
    requires
        no_dollar(v),
        well_formed_upto(l, n),
    ensures
        filled(v, l, n) == v,
    decreases n,
{
    if n > 0 {
        lemma_filled_plain(v, l, (n - 1) as nat);
        lemma_placeholder_not_in_plain(v, l[n - 1].0);
        lemma_replace_absent(v, l[n - 1].0, l[n - 1].1);
    }
}

proof fn lemma_filled_other(t: Seq<char>, l: Seq<(Seq<char>, Seq<char>)>, n: nat)
    requires
        is_placeholder(t),
        well_formed_upto(l, n),
        differs_upto(l, n, t),
    ensures
        filled(t, l, n) == t,
    decreases n,
{
    if n > 0 {
        lemma_filled_other(t, l, (n - 1) as nat);
        lemma_placeholder_not_in_other(t, l[n - 1].0);
        lemma_replace_absent(t, l[n - 1].0, l[n - 1].1);
    }
}

proof fn lemma_well_formed_prefix(l: Seq<(Seq<char>, Seq<char>)>, n: nat, m: nat)
    requires
        well_formed_upto(l, n),
        m <= n,
    ensures
        well_formed_upto(l, m),
        m < n ==> is_placeholder(l[m as int].0) && no_dollar(l[m as int].1),
    decreases n,
{
    if m < n {
        lemma_well_formed_prefix(l, (n - 1) as nat, m);
    }
}

/// The `m`-th placeholder, alone, becomes its own value.
proof fn lemma_filled_own(l: Seq<(Seq<char>, Seq<char>)>, n: nat, m: nat)
    requires
        well_formed_upto(l, n),
        m < n,
        differs_upto(l, m, l[m as int].0),
    ensures
        filled(l[m as int].0, l, n) == l[m as int].1,
    decreases n,
{
    let t = l[m as int].0;
    lemma_well_formed_prefix(l, n, m);
    if n - 1 > m {
        lemma_filled_own(l, (n - 1) as nat, m);
        lemma_well_formed_prefix(l, n, (n - 1) as nat);
        lemma_placeholder_not_in_plain(l[m as int].1, l[n - 1].0);
        lemma_replace_absent(l[m as int].1, l[n - 1].0, l[n - 1].1);
    } else {
        lemma_filled_other(t, l, m);
        lemma_replace_whole(t, l[m as int].1);
    }
}

/// A decimal rendering has no `$`.
proof fn lemma_decimal_no_dollar(n: nat)
    ensures
        no_dollar(decimal(n)),
    decreases n,
{
    let d = decimal(n);
    if n >= 10 {
        lemma_decimal_no_dollar(n / 10);
        let p = decimal(n / 10);
        lemma_free_of(p, '$', 0, p.len() as int);
        assert((n % 10 + 48) as u32 != 36);
        assert forall|j: int| 0 <= j < d.len() implies d[j] != '$' by {
            if j < p.len() {
                assert(d[j] == p[j]);
            }
        }
    } else {
        assert((n + 48) as u32 != 36);
    }
    lemma_free_of_from_forall(d, '$', 0, d.len() as int);
}

proof fn lemma_free_of_from_forall(s: Seq<char>, c: char, from: int, to: int)
    requires
        forall|j: int| from <= j < to ==> s[j] != c,
    ensures
        free_of(s, c, from, to),
    decreases to - from,
{
    if from < to {
        lemma_free_of_from_forall(s, c, from + 1, to);
    }
}

/// `tokens_replaced` makes the replacements of `replacements`, in order.
proof fn lemma_tokens_replaced_filled(s: Seq<char>, c: LaunchContext)
    ensures
        tokens_replaced(s, c) == filled(s, replacements(c), 19),
{
    reveal(tokens_replaced);
    reveal_with_fuel(filled, 20);
}

/// The replacements are placeholders replaced by texts without `$`, when
/// the context's texts have none.
proof fn lemma_replacements_well_formed(c: LaunchContext)
    requires
        context_plain(c),
    ensures
        well_formed_upto(replacements(c), 19),
{
    reveal_strlit("${auth_player_name}");
    reveal_strlit("${version_name}");
    reveal_strlit("${game_directory}");
    reveal_strlit("${assets_root}");
    reveal_strlit("${assets_index_name}");
    reveal_strlit("${auth_uuid}");
    reveal_strlit("${auth_access_token}");
    reveal_strlit("${clientid}");
    reveal_strlit("${auth_xuid}");
    reveal_strlit("${user_type}");
    reveal_strlit("${version_type}");
    reveal_strlit("${natives_directory}");
    reveal_strlit("${launcher_name}");
    reveal_strlit("${launcher_version}");
    reveal_strlit("${classpath}");
    reveal_strlit("${library_directory}");
    reveal_strlit("${classpath_separator}");
    reveal_strlit("${resolution_width}");
    reveal_strlit("${resolution_height}");
    reveal_strlit("cubera");
    reveal_strlit("0");
    reveal_strlit("legacy");
    reveal_strlit("msa");
    reveal_strlit("Cubera");
    reveal_strlit("0.1.0");
    reveal_strlit(":");
    reveal_with_fuel(free_of, 24);
    reveal_with_fuel(well_formed_upto, 20);
    lemma_decimal_no_dollar(c.width as nat);
    lemma_decimal_no_dollar(c.height as nat);
    let l = replacements(c);
    assert(is_placeholder(l[0].0));
    assert(is_placeholder(l[1].0));
    assert(is_placeholder(l[2].0));
    assert(is_placeholder(l[3].0));
    assert(is_placeholder(l[4].0));
    assert(is_placeholder(l[5].0));
    assert(is_placeholder(l[6].0));
    assert(is_placeholder(l[7].0));
    assert(is_placeholder(l[8].0));
    assert(is_placeholder(l[9].0));
    assert(is_placeholder(l[10].0));
    assert(is_placeholder(l[11].0));
    assert(is_placeholder(l[12].0));
    assert(is_placeholder(l[13].0));
    assert(is_placeholder(l[14].0));
    assert(is_placeholder(l[15].0));
    assert(is_placeholder(l[16].0));
    assert(is_placeholder(l[17].0));
    assert(is_placeholder(l[18].0));
    assert(no_dollar(l[7].1));
    assert(no_dollar(l[8].1));
    assert(no_dollar(l[9].1));
    assert(no_dollar(l[10].1));
    assert(no_dollar(l[12].1));
    assert(no_dollar(l[13].1));
    assert(no_dollar(l[16].1));
}

/// The context's own texts hold no `$`.
pub open spec fn context_plain(c: LaunchContext) -> bool {
    &&& no_dollar(c.player_name@)
    &&& no_dollar(c.version_id@)
    &&& no_dollar(c.game_dir@)
    &&& no_dollar(c.assets_root@)
    &&& no_dollar(c.asset_index@)
    &&& no_dollar(c.player_uuid@)
    &&& no_dollar(c.access_token@)
    &&& no_dollar(c.natives_dir@)
    &&& no_dollar(c.classpath@)
    &&& no_dollar(c.libraries_dir@)
}

/// Law: each placeholder of a launch argument becomes the value it names:
/// `${game_directory}` the instance's game directory, `${assets_root}` the
/// assets folder, and so on for every placeholder, whatever the context,
/// as long as the context's texts contain no placeholder themselves.
pub proof fn lemma_placeholder_values(c: LaunchContext)
    requires
        context_plain(c),
    ensures
        tokens_replaced("${auth_player_name}"@, c) == c.player_name@,
        tokens_replaced("${version_name}"@, c) == c.version_id@,
        tokens_replaced("${game_directory}"@, c) == c.game_dir@,
        tokens_replaced("${assets_root}"@, c) == c.assets_root@,
        tokens_replaced("${assets_index_name}"@, c) == c.asset_index@,
        tokens_replaced("${auth_uuid}"@, c) == c.player_uuid@,
        tokens_replaced("${auth_access_token}"@, c) == c.access_token@,
        tokens_replaced("${clientid}"@, c) == "cubera"@,
        tokens_replaced("${auth_xuid}"@, c) == "0"@,
        tokens_replaced("${user_type}"@, c) == (if c.offline { "legacy"@ } else { "msa"@ }),
        tokens_replaced("${version_type}"@, c) == "Cubera"@,
        tokens_replaced("${natives_directory}"@, c) == c.natives_dir@,
        tokens_replaced("${launcher_name}"@, c) == "Cubera"@,
        tokens_replaced("${launcher_version}"@, c) == "0.1.0"@,
        tokens_replaced("${classpath}"@, c) == c.classpath@,
        tokens_replaced("${library_directory}"@, c) == c.libraries_dir@,
        tokens_replaced("${classpath_separator}"@, c) == ":"@,
        tokens_replaced("${resolution_width}"@, c) == decimal(c.width as nat),
        tokens_replaced("${resolution_height}"@, c) == decimal(c.height as nat),
{
    let l = replacements(c);
    lemma_replacements_well_formed(c);
    assert(differs_upto(l, 0, l[0].0)) by {
        reveal_with_fuel(differs_upto, 20);
        reveal_strlit("${auth_player_name}");
    }
    lemma_filled_own(l, 19, 0);
    assert(differs_upto(l, 1, l[1].0)) by {
        reveal_with_fuel(differs_upto, 20);
        reveal_strlit("${auth_player_name}");
        reveal_strlit("${version_name}");
        assert(l[0].0.len() != l[1].0.len());
    }
    lemma_filled_own(l, 19, 1);
    assert(differs_upto(l, 2, l[2].0)) by {
        reveal_with_fuel(differs_upto, 20);
        reveal_strlit("${auth_player_name}");
        reveal_strlit("${version_name}");
        reveal_strlit("${game_directory}");
        assert(l[0].0.len() != l[2].0.len());
        assert(l[1].0.len() != l[2].0.len());
    }
    lemma_filled_own(l, 19, 2);
    assert(differs_upto(l, 3, l[3].0)) by {
        reveal_with_fuel(differs_upto, 20);
        reveal_strlit("${auth_player_name}");
        reveal_strlit("${version_name}");
        reveal_strlit("${game_directory}");
        reveal_strlit("${assets_root}");
        assert(l[0].0.len() != l[3].0.len());
        assert(l[1].0.len() != l[3].0.len());
        assert(l[2].0.len() != l[3].0.len());
    }
    lemma_filled_own(l, 19, 3);
    assert(differs_upto(l, 4, l[4].0)) by {
        reveal_with_fuel(differs_upto, 20);
        reveal_strlit("${auth_player_name}");
        reveal_strlit("${version_name}");
        reveal_strlit("${game_directory}");
        reveal_strlit("${assets_root}");
        reveal_strlit("${assets_index_name}");
        assert(l[0].0.len() != l[4].0.len());
        assert(l[1].0.len() != l[4].0.len());
        assert(l[2].0.len() != l[4].0.len());
        assert(l[3].0.len() != l[4].0.len());
    }
    lemma_filled_own(l, 19, 4);
    assert(differs_upto(l, 5, l[5].0)) by {
        reveal_with_fuel(differs_upto, 20);
        reveal_strlit("${auth_player_name}");
        reveal_strlit("${version_name}");
        reveal_strlit("${game_directory}");
        reveal_strlit("${assets_root}");
        reveal_strlit("${assets_index_name}");
        reveal_strlit("${auth_uuid}");
        assert(l[0].0.len() != l[5].0.len());
        assert(l[1].0.len() != l[5].0.len());
        assert(l[2].0.len() != l[5].0.len());
        assert(l[3].0.len() != l[5].0.len());
        assert(l[4].0.len() != l[5].0.len());
    }
    lemma_filled_own(l, 19, 5);
    assert(differs_upto(l, 6, l[6].0)) by {
        reveal_with_fuel(differs_upto, 20);
        reveal_strlit("${auth_player_name}");
        reveal_strlit("${version_name}");
        reveal_strlit("${game_directory}");
        reveal_strlit("${assets_root}");
        reveal_strlit("${assets_index_name}");
        reveal_strlit("${auth_uuid}");
        reveal_strlit("${auth_access_token}");
        assert(l[0].0.len() != l[6].0.len());
        assert(l[1].0.len() != l[6].0.len());
        assert(l[2].0.len() != l[6].0.len());
        assert(l[3].0.len() != l[6].0.len());
        assert(l[4].0[3] != l[6].0[3]);
        assert(l[5].0.len() != l[6].0.len());
    }
    lemma_filled_own(l, 19, 6);
    assert(differs_upto(l, 7, l[7].0)) by {
        reveal_with_fuel(differs_upto, 20);
        reveal_strlit("${auth_player_name}");
        reveal_strlit("${version_name}");
        reveal_strlit("${game_directory}");
        reveal_strlit("${assets_root}");
        reveal_strlit("${assets_index_name}");
        reveal_strlit("${auth_uuid}");
        reveal_strlit("${auth_access_token}");
        reveal_strlit("${clientid}");
        assert(l[0].0.len() != l[7].0.len());
        assert(l[1].0.len() != l[7].0.len());
        assert(l[2].0.len() != l[7].0.len());
        assert(l[3].0.len() != l[7].0.len());
        assert(l[4].0.len() != l[7].0.len());
        assert(l[5].0.len() != l[7].0.len());
        assert(l[6].0.len() != l[7].0.len());
    }
    lemma_filled_own(l, 19, 7);
    assert(differs_upto(l, 8, l[8].0)) by {
        reveal_with_fuel(differs_upto, 20);
        reveal_strlit("${auth_player_name}");
        reveal_strlit("${version_name}");
        reveal_strlit("${game_directory}");
        reveal_strlit("${assets_root}");
        reveal_strlit("${assets_index_name}");
        reveal_strlit("${auth_uuid}");
        reveal_strlit("${auth_access_token}");
        reveal_strlit("${clientid}");
        reveal_strlit("${auth_xuid}");
        assert(l[0].0.len() != l[8].0.len());
        assert(l[1].0.len() != l[8].0.len());
        assert(l[2].0.len() != l[8].0.len());
        assert(l[3].0.len() != l[8].0.len());
        assert(l[4].0.len() != l[8].0.len());
        assert(l[5].0[7] != l[8].0[7]);
        assert(l[6].0.len() != l[8].0.len());
        assert(l[7].0.len() != l[8].0.len());
    }
    lemma_filled_own(l, 19, 8);
    assert(differs_upto(l, 9, l[9].0)) by {
        reveal_with_fuel(differs_upto, 20);
        reveal_strlit("${auth_player_name}");
        reveal_strlit("${version_name}");
        reveal_strlit("${game_directory}");
        reveal_strlit("${assets_root}");
        reveal_strlit("${assets_index_name}");
        reveal_strlit("${auth_uuid}");
        reveal_strlit("${auth_access_token}");
        reveal_strlit("${clientid}");
        reveal_strlit("${auth_xuid}");
        reveal_strlit("${user_type}");
        assert(l[0].0.len() != l[9].0.len());
        assert(l[1].0.len() != l[9].0.len());
        assert(l[2].0.len() != l[9].0.len());
        assert(l[3].0.len() != l[9].0.len());
        assert(l[4].0.len() != l[9].0.len());
        assert(l[5].0[2] != l[9].0[2]);
        assert(l[6].0.len() != l[9].0.len());
        assert(l[7].0.len() != l[9].0.len());
        assert(l[8].0[2] != l[9].0[2]);
    }
    lemma_filled_own(l, 19, 9);
    assert(differs_upto(l, 10, l[10].0)) by {
        reveal_with_fuel(differs_upto, 20);
        reveal_strlit("${auth_player_name}");
        reveal_strlit("${version_name}");
        reveal_strlit("${game_directory}");
        reveal_strlit("${assets_root}");
        reveal_strlit("${assets_index_name}");
        reveal_strlit("${auth_uuid}");
        reveal_strlit("${auth_access_token}");
        reveal_strlit("${clientid}");
        reveal_strlit("${auth_xuid}");
        reveal_strlit("${user_type}");
        reveal_strlit("${version_type}");
        assert(l[0].0.len() != l[10].0.len());
        assert(l[1].0[10] != l[10].0[10]);
        assert(l[2].0.len() != l[10].0.len());
        assert(l[3].0.len() != l[10].0.len());
        assert(l[4].0.len() != l[10].0.len());
        assert(l[5].0.len() != l[10].0.len());
        assert(l[6].0.len() != l[10].0.len());
        assert(l[7].0.len() != l[10].0.len());
        assert(l[8].0.len() != l[10].0.len());
        assert(l[9].0.len() != l[10].0.len());
    }
    lemma_filled_own(l, 19, 10);
    assert(differs_upto(l, 11, l[11].0)) by {
        reveal_with_fuel(differs_upto, 20);
        reveal_strlit("${auth_player_name}");
        reveal_strlit("${version_name}");
        reveal_strlit("${game_directory}");
        reveal_strlit("${assets_root}");
        reveal_strlit("${assets_index_name}");
        reveal_strlit("${auth_uuid}");
        reveal_strlit("${auth_access_token}");
        reveal_strlit("${clientid}");
        reveal_strlit("${auth_xuid}");
        reveal_strlit("${user_type}");
        reveal_strlit("${version_type}");
        reveal_strlit("${natives_directory}");
        assert(l[0].0.len() != l[11].0.len());
        assert(l[1].0.len() != l[11].0.len());
        assert(l[2].0.len() != l[11].0.len());
        assert(l[3].0.len() != l[11].0.len());
        assert(l[4].0[2] != l[11].0[2]);
        assert(l[5].0.len() != l[11].0.len());
        assert(l[6].0[2] != l[11].0[2]);
        assert(l[7].0.len() != l[11].0.len());
        assert(l[8].0.len() != l[11].0.len());
        assert(l[9].0.len() != l[11].0.len());
        assert(l[10].0.len() != l[11].0.len());
    }
    lemma_filled_own(l, 19, 11);
    assert(differs_upto(l, 12, l[12].0)) by {
        reveal_with_fuel(differs_upto, 20);
        reveal_strlit("${auth_player_name}");
        reveal_strlit("${version_name}");
        reveal_strlit("${game_directory}");
        reveal_strlit("${assets_root}");
        reveal_strlit("${assets_index_name}");
        reveal_strlit("${auth_uuid}");
        reveal_strlit("${auth_access_token}");
        reveal_strlit("${clientid}");
        reveal_strlit("${auth_xuid}");
        reveal_strlit("${user_type}");
        reveal_strlit("${version_type}");
        reveal_strlit("${natives_directory}");
        reveal_strlit("${launcher_name}");
        assert(l[0].0.len() != l[12].0.len());
        assert(l[1].0.len() != l[12].0.len());
        assert(l[2].0.len() != l[12].0.len());
        assert(l[3].0.len() != l[12].0.len());
        assert(l[4].0.len() != l[12].0.len());
        assert(l[5].0.len() != l[12].0.len());
        assert(l[6].0.len() != l[12].0.len());
        assert(l[7].0.len() != l[12].0.len());
        assert(l[8].0.len() != l[12].0.len());
        assert(l[9].0.len() != l[12].0.len());
        assert(l[10].0.len() != l[12].0.len());
        assert(l[11].0.len() != l[12].0.len());
    }
    lemma_filled_own(l, 19, 12);
    assert(differs_upto(l, 13, l[13].0)) by {
        reveal_with_fuel(differs_upto, 20);
        reveal_strlit("${auth_player_name}");
        reveal_strlit("${version_name}");
        reveal_strlit("${game_directory}");
        reveal_strlit("${assets_root}");
        reveal_strlit("${assets_index_name}");
        reveal_strlit("${auth_uuid}");
        reveal_strlit("${auth_access_token}");
        reveal_strlit("${clientid}");
        reveal_strlit("${auth_xuid}");
        reveal_strlit("${user_type}");
        reveal_strlit("${version_type}");
        reveal_strlit("${natives_directory}");
        reveal_strlit("${launcher_name}");
        reveal_strlit("${launcher_version}");
        assert(l[0].0[2] != l[13].0[2]);
        assert(l[1].0.len() != l[13].0.len());
        assert(l[2].0.len() != l[13].0.len());
        assert(l[3].0.len() != l[13].0.len());
        assert(l[4].0.len() != l[13].0.len());
        assert(l[5].0.len() != l[13].0.len());
        assert(l[6].0.len() != l[13].0.len());
        assert(l[7].0.len() != l[13].0.len());
        assert(l[8].0.len() != l[13].0.len());
        assert(l[9].0.len() != l[13].0.len());
        assert(l[10].0.len() != l[13].0.len());
        assert(l[11].0.len() != l[13].0.len());
        assert(l[12].0.len() != l[13].0.len());
    }
    lemma_filled_own(l, 19, 13);
    assert(differs_upto(l, 14, l[14].0)) by {
        reveal_with_fuel(differs_upto, 20);
        reveal_strlit("${auth_player_name}");
        reveal_strlit("${version_name}");
        reveal_strlit("${game_directory}");
        reveal_strlit("${assets_root}");
        reveal_strlit("${assets_index_name}");
        reveal_strlit("${auth_uuid}");
        reveal_strlit("${auth_access_token}");
        reveal_strlit("${clientid}");
        reveal_strlit("${auth_xuid}");
        reveal_strlit("${user_type}");
        reveal_strlit("${version_type}");
        reveal_strlit("${natives_directory}");
        reveal_strlit("${launcher_name}");
        reveal_strlit("${launcher_version}");
        reveal_strlit("${classpath}");
        assert(l[0].0.len() != l[14].0.len());
        assert(l[1].0.len() != l[14].0.len());
        assert(l[2].0.len() != l[14].0.len());
        assert(l[3].0.len() != l[14].0.len());
        assert(l[4].0.len() != l[14].0.len());
        assert(l[5].0[2] != l[14].0[2]);
        assert(l[6].0.len() != l[14].0.len());
        assert(l[7].0.len() != l[14].0.len());
        assert(l[8].0[2] != l[14].0[2]);
        assert(l[9].0[2] != l[14].0[2]);
        assert(l[10].0.len() != l[14].0.len());
        assert(l[11].0.len() != l[14].0.len());
        assert(l[12].0.len() != l[14].0.len());
        assert(l[13].0.len() != l[14].0.len());
    }
    lemma_filled_own(l, 19, 14);
    assert(differs_upto(l, 15, l[15].0)) by {
        reveal_with_fuel(differs_upto, 20);
        reveal_strlit("${auth_player_name}");
        reveal_strlit("${version_name}");
        reveal_strlit("${game_directory}");
        reveal_strlit("${assets_root}");
        reveal_strlit("${assets_index_name}");
        reveal_strlit("${auth_uuid}");
        reveal_strlit("${auth_access_token}");
        reveal_strlit("${clientid}");
        reveal_strlit("${auth_xuid}");
        reveal_strlit("${user_type}");
        reveal_strlit("${version_type}");
        reveal_strlit("${natives_directory}");
        reveal_strlit("${launcher_name}");
        reveal_strlit("${launcher_version}");
        reveal_strlit("${classpath}");
        reveal_strlit("${library_directory}");
        assert(l[0].0.len() != l[15].0.len());
        assert(l[1].0.len() != l[15].0.len());
        assert(l[2].0.len() != l[15].0.len());
        assert(l[3].0.len() != l[15].0.len());
        assert(l[4].0[2] != l[15].0[2]);
        assert(l[5].0.len() != l[15].0.len());
        assert(l[6].0[2] != l[15].0[2]);
        assert(l[7].0.len() != l[15].0.len());
        assert(l[8].0.len() != l[15].0.len());
        assert(l[9].0.len() != l[15].0.len());
        assert(l[10].0.len() != l[15].0.len());
        assert(l[11].0[2] != l[15].0[2]);
        assert(l[12].0.len() != l[15].0.len());
        assert(l[13].0.len() != l[15].0.len());
        assert(l[14].0.len() != l[15].0.len());
    }
    lemma_filled_own(l, 19, 15);
    assert(differs_upto(l, 16, l[16].0)) by {
        reveal_with_fuel(differs_upto, 20);
        reveal_strlit("${auth_player_name}");
        reveal_strlit("${version_name}");
        reveal_strlit("${game_directory}");
        reveal_strlit("${assets_root}");
        reveal_strlit("${assets_index_name}");
        reveal_strlit("${auth_uuid}");
        reveal_strlit("${auth_access_token}");
        reveal_strlit("${clientid}");
        reveal_strlit("${auth_xuid}");
        reveal_strlit("${user_type}");
        reveal_strlit("${version_type}");
        reveal_strlit("${natives_directory}");
        reveal_strlit("${launcher_name}");
        reveal_strlit("${launcher_version}");
        reveal_strlit("${classpath}");
        reveal_strlit("${library_directory}");
        reveal_strlit("${classpath_separator}");
        assert(l[0].0.len() != l[16].0.len());
        assert(l[1].0.len() != l[16].0.len());
        assert(l[2].0.len() != l[16].0.len());
        assert(l[3].0.len() != l[16].0.len());
        assert(l[4].0.len() != l[16].0.len());
        assert(l[5].0.len() != l[16].0.len());
        assert(l[6].0.len() != l[16].0.len());
        assert(l[7].0.len() != l[16].0.len());
        assert(l[8].0.len() != l[16].0.len());
        assert(l[9].0.len() != l[16].0.len());
        assert(l[10].0.len() != l[16].0.len());
        assert(l[11].0.len() != l[16].0.len());
        assert(l[12].0.len() != l[16].0.len());
        assert(l[13].0.len() != l[16].0.len());
        assert(l[14].0.len() != l[16].0.len());
        assert(l[15].0.len() != l[16].0.len());
    }
    lemma_filled_own(l, 19, 16);
    assert(differs_upto(l, 17, l[17].0)) by {
        reveal_with_fuel(differs_upto, 20);
        reveal_strlit("${auth_player_name}");
        reveal_strlit("${version_name}");
        reveal_strlit("${game_directory}");
        reveal_strlit("${assets_root}");
        reveal_strlit("${assets_index_name}");
        reveal_strlit("${auth_uuid}");
        reveal_strlit("${auth_access_token}");
        reveal_strlit("${clientid}");
        reveal_strlit("${auth_xuid}");
        reveal_strlit("${user_type}");
        reveal_strlit("${version_type}");
        reveal_strlit("${natives_directory}");
        reveal_strlit("${launcher_name}");
        reveal_strlit("${launcher_version}");
        reveal_strlit("${classpath}");
        reveal_strlit("${library_directory}");
        reveal_strlit("${classpath_separator}");
        reveal_strlit("${resolution_width}");
        assert(l[0].0[2] != l[17].0[2]);
        assert(l[1].0.len() != l[17].0.len());
        assert(l[2].0.len() != l[17].0.len());
        assert(l[3].0.len() != l[17].0.len());
        assert(l[4].0.len() != l[17].0.len());
        assert(l[5].0.len() != l[17].0.len());
        assert(l[6].0.len() != l[17].0.len());
        assert(l[7].0.len() != l[17].0.len());
        assert(l[8].0.len() != l[17].0.len());
        assert(l[9].0.len() != l[17].0.len());
        assert(l[10].0.len() != l[17].0.len());
        assert(l[11].0.len() != l[17].0.len());
        assert(l[12].0.len() != l[17].0.len());
        assert(l[13].0[2] != l[17].0[2]);
        assert(l[14].0.len() != l[17].0.len());
        assert(l[15].0.len() != l[17].0.len());
        assert(l[16].0.len() != l[17].0.len());
    }
    lemma_filled_own(l, 19, 17);
    assert(differs_upto(l, 18, l[18].0)) by {
        reveal_with_fuel(differs_upto, 20);
        reveal_strlit("${auth_player_name}");
        reveal_strlit("${version_name}");
        reveal_strlit("${game_directory}");
        reveal_strlit("${assets_root}");
        reveal_strlit("${assets_index_name}");
        reveal_strlit("${auth_uuid}");
        reveal_strlit("${auth_access_token}");
        reveal_strlit("${clientid}");
        reveal_strlit("${auth_xuid}");
        reveal_strlit("${user_type}");
        reveal_strlit("${version_type}");
        reveal_strlit("${natives_directory}");
        reveal_strlit("${launcher_name}");
        reveal_strlit("${launcher_version}");
        reveal_strlit("${classpath}");
        reveal_strlit("${library_directory}");
        reveal_strlit("${classpath_separator}");
        reveal_strlit("${resolution_width}");
        reveal_strlit("${resolution_height}");
        assert(l[0].0.len() != l[18].0.len());
        assert(l[1].0.len() != l[18].0.len());
        assert(l[2].0.len() != l[18].0.len());
        assert(l[3].0.len() != l[18].0.len());
        assert(l[4].0[2] != l[18].0[2]);
        assert(l[5].0.len() != l[18].0.len());
        assert(l[6].0[2] != l[18].0[2]);
        assert(l[7].0.len() != l[18].0.len());
        assert(l[8].0.len() != l[18].0.len());
        assert(l[9].0.len() != l[18].0.len());
        assert(l[10].0.len() != l[18].0.len());
        assert(l[11].0[2] != l[18].0[2]);
        assert(l[12].0.len() != l[18].0.len());
        assert(l[13].0.len() != l[18].0.len());
        assert(l[14].0.len() != l[18].0.len());
        assert(l[15].0[2] != l[18].0[2]);
        assert(l[16].0.len() != l[18].0.len());
        assert(l[17].0.len() != l[18].0.len());
    }
    lemma_filled_own(l, 19, 18);
    lemma_tokens_replaced_filled("${auth_player_name}"@, c);
    lemma_tokens_replaced_filled("${version_name}"@, c);
    lemma_tokens_replaced_filled("${game_directory}"@, c);
    lemma_tokens_replaced_filled("${assets_root}"@, c);
    lemma_tokens_replaced_filled("${assets_index_name}"@, c);
    lemma_tokens_replaced_filled("${auth_uuid}"@, c);
    lemma_tokens_replaced_filled("${auth_access_token}"@, c);
    lemma_tokens_replaced_filled("${clientid}"@, c);
    lemma_tokens_replaced_filled("${auth_xuid}"@, c);
    lemma_tokens_replaced_filled("${user_type}"@, c);
    lemma_tokens_replaced_filled("${version_type}"@, c);
    lemma_tokens_replaced_filled("${natives_directory}"@, c);
    lemma_tokens_replaced_filled("${launcher_name}"@, c);
    lemma_tokens_replaced_filled("${launcher_version}"@, c);
    lemma_tokens_replaced_filled("${classpath}"@, c);
    lemma_tokens_replaced_filled("${library_directory}"@, c);
    lemma_tokens_replaced_filled("${classpath_separator}"@, c);
    lemma_tokens_replaced_filled("${resolution_width}"@, c);
    lemma_tokens_replaced_filled("${resolution_height}"@, c);
}

// ---------------------------------------------------------------------------
// Classpath and natives
// ---------------------------------------------------------------------------

/// Whether a library has an explicit artifact.
pub open spec fn has_artifact(lib: Library) -> bool {
    match lib.downloads {
        Some(d) => d.artifact is Some,
        None => false,
    }
}

/// A library's jar: its explicit artifact's path, else its Maven path,
/// below the libraries folder.
pub open spec fn library_file(lib: Library, libs: Seq<char>) -> Seq<char> {
    match lib.downloads {
        Some(d) => match d.artifact {
            Some(a) => path_join(libs, a.path@),
            None => path_join(libs, maven_rel_path(lib.name@)),
        },
        None => path_join(libs, maven_rel_path(lib.name@)),
    }
}

/// A library is on the classpath when its rules allow it, unless it only
/// declares natives without an artifact of its own.
pub open spec fn on_classpath(lib: Library, os: Seq<char>) -> bool {
    rules_allow(lib.rules@, os, Seq::empty()) && !(lib.natives && !has_artifact(lib))
}

/// The library jars that may go on the classpath, in profile order.
pub open spec fn classpath_files(libs: Seq<Library>, os: Seq<char>, dir: Seq<char>) -> Seq<Seq<char>>
    decreases libs.len(),
{
    if libs.len() == 0 {
        Seq::empty()
    } else {
        let rest = classpath_files(libs.drop_last(), os, dir);
        if on_classpath(libs.last(), os) {
            rest.push(library_file(libs.last(), dir))
        } else {
            rest
        }
    }
}

fn library_jar(lib: &Library, libraries_dir: &str) -> (r: String)
    ensures
        r@ == library_file(*lib, libraries_dir@),
{
    match &lib.downloads {
        Some(d) => match &d.artifact {
            Some(a) => join_path(libraries_dir, a.path.as_str()),
            None => {
                let rel = maven_path(lib.name.as_str());
                join_path(libraries_dir, rel.as_str())
            },
        },
        None => {
            let rel = maven_path(lib.name.as_str());
            join_path(libraries_dir, rel.as_str())
        },
    }
}

/// The library jars that go on the classpath if they exist.
pub fn classpath_candidates(libs: &Vec<Library>, os: &str, libraries_dir: &str) -> (r: Vec<String>)
    ensures
        views(r@) == classpath_files(libs@, os@, libraries_dir@),
{
    let mut r: Vec<String> = Vec::new();
    let mut i: usize = 0;
    while i < libs.len()
        invariant
            i <= libs.len(),
            views(r@) == classpath_files(libs@.take(i as int), os@, libraries_dir@),
        decreases libs.len() - i,
    {
        assert(libs@.take(i + 1).drop_last() =~= libs@.take(i as int));
        assert(libs@.take(i + 1).last() == libs@[i as int]);
        let lib = &libs[i];
        let artifact = match &lib.downloads {
            Some(d) => d.artifact.is_some(),
            None => false,
        };
        if rule_allows(&lib.rules, os) && !(lib.natives && !artifact) {
            push_arg(&mut r, library_jar(lib, libraries_dir));
        }
        i = i + 1;
    }
    assert(libs@.take(libs.len() as int) =~= libs@);
    r
}

/// The client jars tried, in order: the version's own, then those of the
/// profiles in its inheritance chain (given from the version itself to its
/// base), base first; the first that exists is used.
pub open spec fn client_jar_files(versions: Seq<char>, id: Seq<char>, chain: Seq<Seq<char>>) -> Seq<Seq<char>> {
    seq![version_file(versions, id, ".jar"@)] + chain.reverse().map_values(|c: Seq<char>| version_file(versions, c, ".jar"@))
}

/// The client jars tried for a version, in order.
pub fn client_jar_candidates(versions_dir: &str, version_id: &str, chain_ids: &Vec<String>) -> (r: Vec<String>)
    ensures
        views(r@) == client_jar_files(versions_dir@, version_id@, views(chain_ids@)),
{
    let mut r: Vec<String> = Vec::new();
    push_arg(&mut r, crate::download::client_jar_path(versions_dir, version_id));
    let n = chain_ids.len();
    let mut k: usize = n;
    while k > 0
        invariant
            k <= n == chain_ids.len(),
            views(r@) == seq![version_file(versions_dir@, version_id@, ".jar"@)]
                + views(chain_ids@).subrange(k as int, n as int).reverse().map_values(|c: Seq<char>| version_file(versions_dir@, c, ".jar"@)),
        decreases k,
    {
        k = k - 1;
        let ghost before = views(r@);
        push_arg(&mut r, crate::download::client_jar_path(versions_dir, chain_ids[k].as_str()));
        assert(views(chain_ids@).subrange(k as int, n as int).reverse() =~= views(chain_ids@).subrange(k + 1, n as int).reverse().push(chain_ids@[k as int]@));
        assert(views(r@) =~= seq![version_file(versions_dir@, version_id@, ".jar"@)]
            + views(chain_ids@).subrange(k as int, n as int).reverse().map_values(|c: Seq<char>| version_file(versions_dir@, c, ".jar"@)));
    }
    assert(views(chain_ids@).subrange(0, n as int) =~= views(chain_ids@));
    r
}

/// The candidates whose flag is set, in order.
pub open spec fn flagged(c: Seq<Seq<char>>, present: Seq<bool>) -> Seq<Seq<char>>
    decreases c.len(),
{
    if c.len() == 0 || present.len() == 0 {
        Seq::empty()
    } else {
        let rest = flagged(c.drop_last(), present.drop_last());
        if present.last() {
            rest.push(c.last())
        } else {
            rest
        }
    }
}

/// The classpath: the library jars that exist, in order, then the client
/// jar when one was found, joined with `:`.
pub fn build_classpath(candidates: &Vec<String>, present: &Vec<bool>, client_jar: Option<String>) -> (r: String)
    requires
        candidates.len() == present.len(),
    ensures
        r@ == join(flagged(views(candidates@), present@) + match client_jar {
            Some(j) => seq![j@],
            None => Seq::<Seq<char>>::empty(),
        }, ":"@),
{
    let mut entries: Vec<String> = Vec::new();
    let mut i: usize = 0;
    while i < candidates.len()
        invariant
            i <= candidates.len() == present.len(),
            views(entries@) == flagged(views(candidates@).take(i as int), present@.take(i as int)),
        decreases candidates.len() - i,
    {
        assert(views(candidates@).take(i + 1).drop_last() =~= views(candidates@).take(i as int));
        assert(present@.take(i + 1).drop_last() =~= present@.take(i as int));
        assert(views(candidates@).take(i + 1).last() == candidates@[i as int]@);
        if present[i] {
            push_arg(&mut entries, candidates[i].clone());
        }
        i = i + 1;
    }
    assert(views(candidates@).take(candidates.len() as int) =~= views(candidates@));
    assert(present@.take(present.len() as int) =~= present@);
    let ghost libs_part = views(entries@);
    match client_jar {
        Some(j) => {
            push_arg(&mut entries, j);
        },
        None => {},
    }
    proof {
        reveal_strlit(":");
    }
    assert(views(entries@) =~= libs_part + match client_jar {
        Some(j) => seq![j@],
        None => Seq::<Seq<char>>::empty(),
    });
    crate::text::join_strs(&entries, ":")
}

/// The jars of wanted classifier artifacts (macOS natives for this
/// architecture), in order.
pub open spec fn classifier_jars(c: Seq<(String, Artifact)>, dir: Seq<char>, arm64: bool) -> Seq<Seq<char>>
    decreases c.len(),
{
    if c.len() == 0 {
        Seq::empty()
    } else {
        let rest = classifier_jars(c.drop_last(), dir, arm64);
        if macos_classifier(c.last().0@, arm64) {
            rest.push(path_join(dir, c.last().1.path@))
        } else {
            rest
        }
    }
}

/// The jars of one library whose native binaries are extracted: its macOS
/// classifier artifacts; itself when it is a separately published natives
/// artifact for this Mac; and the Objective-C bridge's own artifact, which
/// carries native code.
pub open spec fn library_native_jars(lib: Library, dir: Seq<char>, arm64: bool) -> Seq<Seq<char>> {
    let legacy = match lib.downloads {
        Some(d) => classifier_jars(d.classifiers@, dir, arm64),
        None => Seq::empty(),
    };
    let modern = if contains(lib.name@, ":natives-"@) && (macos_classifier(fourth_part(lib.name@), arm64)
        || macos_classifier(lib.name@, arm64)) {
        seq![library_file(lib, dir)]
    } else {
        Seq::empty()
    };
    let bridge = match lib.downloads {
        Some(d) => match d.artifact {
            Some(a) => if contains(lib.name@, "java-objc-bridge"@) { seq![path_join(dir, a.path@)] } else { Seq::empty() },
            None => Seq::empty(),
        },
        None => Seq::empty(),
    };
    legacy + modern + bridge
}

/// The jars whose native binaries are extracted before launch, library by
/// library in profile order, for the libraries whose rules allow them.
pub open spec fn native_jar_files(libs: Seq<Library>, os: Seq<char>, dir: Seq<char>, arm64: bool) -> Seq<Seq<char>>
    decreases libs.len(),
{
    if libs.len() == 0 {
        Seq::empty()
    } else {
        let rest = native_jar_files(libs.drop_last(), os, dir, arm64);
        if rules_allow(libs.last().rules@, os, Seq::empty()) {
            rest + library_native_jars(libs.last(), dir, arm64)
        } else {
            rest
        }
    }
}

fn native_jars_of(lib: &Library, libraries_dir: &str, arm64: bool, out: &mut Vec<String>)
    ensures
        views(final(out)@) == views(old(out)@) + library_native_jars(*lib, libraries_dir@, arm64),
{
    let ghost start = views(out@);
    match &lib.downloads {
        Some(d) => {
            let mut i: usize = 0;
            while i < d.classifiers.len()
                invariant
                    i <= d.classifiers.len(),
                    views(out@) == start + classifier_jars(d.classifiers@.take(i as int), libraries_dir@, arm64),
                decreases d.classifiers.len() - i,
            {
                assert(d.classifiers@.take(i + 1).drop_last() =~= d.classifiers@.take(i as int));
                if classifier_matches_macos(d.classifiers[i].0.as_str(), arm64) {
                    push_arg(out, join_path(libraries_dir, d.classifiers[i].1.path.as_str()));
                }
                i = i + 1;
            }
            assert(d.classifiers@.take(d.classifiers.len() as int) =~= d.classifiers@);
        },
        None => {
            assert(views(out@) =~= start + Seq::<Seq<char>>::empty());
        },
    }
    let ghost legacy = views(out@);
    if str_contains(lib.name.as_str(), ":natives-") && native_classifier_matches_macos(lib.name.as_str(), arm64) {
        push_arg(out, library_jar(lib, libraries_dir));
    }
    let ghost modern = views(out@);
    match &lib.downloads {
        Some(d) => match &d.artifact {
            Some(a) => {
                if str_contains(lib.name.as_str(), "java-objc-bridge") {
                    push_arg(out, join_path(libraries_dir, a.path.as_str()));
                }
            },
            None => {},
        },
        None => {},
    }
    proof {
        reveal_strlit(":natives-");
        reveal_strlit("java-objc-bridge");
    }
    assert(views(out@) =~= views(old(out)@) + library_native_jars(*lib, libraries_dir@, arm64));
}

/// The jars whose native binaries are extracted before launch (each only
/// when it exists).
pub fn native_jars(libs: &Vec<Library>, os: &str, libraries_dir: &str, arm64: bool) -> (r: Vec<String>)
    ensures
        views(r@) == native_jar_files(libs@, os@, libraries_dir@, arm64),
{
    let mut r: Vec<String> = Vec::new();
    let mut i: usize = 0;
    while i < libs.len()
        invariant
            i <= libs.len(),
            views(r@) == native_jar_files(libs@.take(i as int), os@, libraries_dir@, arm64),
        decreases libs.len() - i,
    {
        assert(libs@.take(i + 1).drop_last() =~= libs@.take(i as int));
        assert(libs@.take(i + 1).last() == libs@[i as int]);
        if rule_allows(&libs[i].rules, os) {
            native_jars_of(&libs[i], libraries_dir, arm64, &mut r);
        }
        i = i + 1;
    }
    assert(libs@.take(libs.len() as int) =~= libs@);
    r
}

// ---------------------------------------------------------------------------
// Finding Java, and reporting the start
// ---------------------------------------------------------------------------

/// A way of looking for Java: a path to test, `java_home` (for a version,
/// or its default), or `which java`.
#[derive(Debug, Clone)]
pub enum JavaProbe {
    Path(String),
    JavaHome(Option<String>),
    Which,
}

/// A probe as plain values: kind (0 path, 1 `java_home`, 2 `which`) and text.
pub open spec fn probe_view(p: JavaProbe) -> (int, Option<Seq<char>>) {
    match p {
        JavaProbe::Path(s) => (0, Some(s@)),
        JavaProbe::JavaHome(v) => (1, match v {
            Some(x) => Some(x@),
            None => None,
        }),
        JavaProbe::Which => (2, None),
    }
}

/// Where Java is looked for, in order: the configured path; `java_home`
/// for Java 25, 26, 21 and 17, then its default; the Homebrew and system
/// locations; and `which java`. The first probe that finds an existing
/// binary wins.
pub open spec fn java_probes(preferred: Option<Seq<char>>) -> Seq<(int, Option<Seq<char>>)> {
    let first: Seq<(int, Option<Seq<char>>)> = match preferred {
        Some(p) => seq![(0, Some(p))],
        None => Seq::empty(),
    };
    first + seq![
        (1, Some("25"@)),
        (1, Some("26"@)),
        (1, Some("21"@)),
        (1, Some("17"@)),
        (1, None),
        (0, Some("/opt/homebrew/opt/openjdk/bin/java"@)),
        (0, Some("/opt/homebrew/opt/openjdk@21/bin/java"@)),
        (0, Some("/opt/homebrew/opt/openjdk@17/bin/java"@)),
        (0, Some("/usr/bin/java"@)),
        (2, None),
    ]
}

/// Where Java is looked for, in order.
pub fn java_lookup_plan(preferred: Option<String>) -> (r: Vec<JavaProbe>)
    ensures
        r@.map_values(|p: JavaProbe| probe_view(p)) == java_probes(match preferred {
            Some(p) => Some(p@),
            None => None,
        }),
{
    let mut r: Vec<JavaProbe> = Vec::new();
    match preferred {
        Some(p) => r.push(JavaProbe::Path(p)),
        None => {},
    }
    r.push(JavaProbe::JavaHome(Some(String::from_str("25"))));
    r.push(JavaProbe::JavaHome(Some(String::from_str("26"))));
    r.push(JavaProbe::JavaHome(Some(String::from_str("21"))));
    r.push(JavaProbe::JavaHome(Some(String::from_str("17"))));
    r.push(JavaProbe::JavaHome(None));
    r.push(JavaProbe::Path(String::from_str("/opt/homebrew/opt/openjdk/bin/java")));
    r.push(JavaProbe::Path(String::from_str("/opt/homebrew/opt/openjdk@21/bin/java")));
    r.push(JavaProbe::Path(String::from_str("/opt/homebrew/opt/openjdk@17/bin/java")));
    r.push(JavaProbe::Path(String::from_str("/usr/bin/java")));
    r.push(JavaProbe::Which);
    assert(r@.map_values(|p: JavaProbe| probe_view(p)) =~= java_probes(match preferred {
        Some(p) => Some(p@),
        None => None,
    }));
    r
}

/// The binary inside a Java home printed by `java_home` (trimmed).
pub fn java_home_bin(stdout: &str) -> (r: String)
    ensures
        r@ == path_join(trim(stdout@), "bin/java"@),
{
    let home = trim_str(stdout);
    join_path(home.as_str(), "bin/java")
}

/// The last characters of a text, at most `n`.
pub open spec fn tail(s: Seq<char>, n: nat) -> Seq<char> {
    if s.len() > n {
        s.skip(s.len() - n)
    } else {
        s
    }
}

/// What a crash report shows: the end (at most 800 characters) of the
/// error log, else of the output log, both trimmed, else a note that there
/// was no output.
pub open spec fn crash_detail(err_log: Seq<char>, out_log: Seq<char>) -> Seq<char> {
    let d = if trim(err_log).len() > 0 {
        trim(err_log)
    } else if trim(out_log).len() > 0 {
        trim(out_log)
    } else {
        "geen loguitvoer"@
    };
    tail(d, 800)
}

/// The error when the game exited right after starting.
pub fn crash_message(status: &str, err_log: &str, out_log: &str) -> (r: String)
    ensures
        r@ == "Minecraft stopte meteen (exit "@ + status@ + ").\n"@ + crash_detail(err_log@, out_log@),
{
    let e = trim_str(err_log);
    let o = trim_str(out_log);
    let d = if !e.as_str().is_empty() {
        e
    } else if !o.as_str().is_empty() {
        o
    } else {
        String::from_str("geen loguitvoer")
    };
    proof {
        reveal_strlit("geen loguitvoer");
    }
    let v = chars_of(d.as_str());
    let t = if v.len() > 800 {
        let x = string_of_range(&v, v.len() - 800, v.len());
        assert(v@.subrange(v.len() - 800, v.len() as int) =~= v@.skip(v.len() - 800));
        x
    } else {
        d
    };
    let mut r = concat3("Minecraft stopte meteen (exit ", status, ").\n");
    push_all(&mut r, t.as_str());
    r
}

/// The report after a successful start.
pub fn launched_message(version_id: &str, player_name: &str) -> (r: String)
    ensures
        r@ == "Gestart: "@ + version_id@ + " als "@ + player_name@,
{
    let mut r = concat3("Gestart: ", version_id, " als ");
    push_all(&mut r, player_name);
    r
}

} // verus!
