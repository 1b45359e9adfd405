//! Where the launcher keeps its data, and the persisted settings.
use vstd::prelude::*;
use crate::text::{chars_of, concat, concat3, string_of};

verus! {

/// `PathBuf::join` on Unix: an absolute `rel` replaces `base`; otherwise a
/// `/` separates the two unless `base` is empty or already ends with one.
pub open spec fn path_join(base: Seq<char>, rel: Seq<char>) -> Seq<char> {
    if rel.len() > 0 && rel[0] == '/' {
        rel
    } else if base.len() == 0 || base.last() == '/' {
        base + rel
    } else {
        base + seq!['/'] + rel
    }
}

/// `base.join(rel)`, rendered as a string.
pub fn join_path(base: &str, rel: &str) -> (r: String)
    ensures
        r@ == path_join(base@, rel@),
{
    let b = chars_of(base);
    let rv = chars_of(rel);
    if rv.len() > 0 && rv[0] == '/' {
        return string_of(&rv);
    }
    if b.len() == 0 || b[b.len() - 1] == '/' {
        concat(base, rel)
    } else {
        proof {
            reveal_strlit("/");
        }
        concat3(base, "/", rel)
    }
}

/// The optional string's characters.
pub open spec fn opt_view(o: Option<String>) -> Option<Seq<char>> {
    match o {
        Some(s) => Some(s@),
        None => None,
    }
}

/// The launcher's data directory for a platform data directory `base`
/// (the current directory when the platform has none).
pub open spec fn data_root(base: Option<Seq<char>>) -> Seq<char> {
    match base {
        Some(b) => path_join(b, "Cubera"@),
        None => path_join("."@, "Cubera"@),
    }
}

/// `p` is the data directory for some platform data directory.
pub open spec fn is_data_root(p: Seq<char>) -> bool {
    exists|b: Option<Seq<char>>| p == data_root(b)
}

/// `p` is `name` inside some data directory.
pub open spec fn in_data_root(p: Seq<char>, name: Seq<char>) -> bool {
    exists|root: Seq<char>| is_data_root(root) && p == path_join(root, name)
}

/// The platform's per-user data directory (`dirs::data_dir`), as text.
/// It depends on the environment, so nothing is promised about it.
#[verifier::external_body]
fn platform_data_dir() -> (r: Option<String>) {
    dirs::data_dir().map(|p| p.to_string_lossy().into_owned())
}

/// The data directory below a given platform data directory.
pub fn data_dir_under(base: Option<String>) -> (r: String)
    ensures
        r@ == data_root(opt_view(base)),
{
    proof {
        reveal_strlit("Cubera");
        reveal_strlit(".");
    }
    match base {
        Some(b) => join_path(b.as_str(), "Cubera"),
        None => join_path(".", "Cubera"),
    }
}

/// The launcher's data directory.
pub fn data_dir() -> (r: String)
    ensures
        is_data_root(r@),
{
    let base = platform_data_dir();
    let r = data_dir_under(base);
    assert(r@ == data_root(opt_view(base)));
    r
}

/// A named directory inside the data directory.
fn data_subdir(name: &str) -> (r: String)
    ensures
        in_data_root(r@, name@),
{
    let root = data_dir();
    let r = join_path(root.as_str(), name);
    assert(is_data_root(root@) && r@ == path_join(root@, name@));
    r
}

/// Where instances (game directories) live.
pub fn instances_dir() -> (r: String)
    ensures
        in_data_root(r@, "instances"@),
{
    data_subdir("instances")
}

/// Where Maven libraries are stored.
pub fn libraries_dir() -> (r: String)
    ensures
        in_data_root(r@, "libraries"@),
{
    data_subdir("libraries")
}

/// Where game assets are stored.
pub fn assets_dir() -> (r: String)
    ensures
        in_data_root(r@, "assets"@),
{
    data_subdir("assets")
}

/// Where version profiles are stored.
pub fn versions_dir() -> (r: String)
    ensures
        in_data_root(r@, "versions"@),
{
    data_subdir("versions")
}

/// Where managed Java runtimes are stored.
pub fn java_dir() -> (r: String)
    ensures
        in_data_root(r@, "java"@),
{
    data_subdir("java")
}

/// The settings file.
pub fn settings_path() -> (r: String)
    ensures
        in_data_root(r@, "settings.json"@),
{
    data_subdir("settings.json")
}

/// The directories that must exist before the launcher works, in the
/// order they are created: the data directory, then instances, libraries,
/// assets, versions and java inside it.
pub fn required_dirs() -> (r: Vec<String>)
    ensures
        r.len() == 6,
        is_data_root(r[0]@),
        in_data_root(r[1]@, "instances"@),
        in_data_root(r[2]@, "libraries"@),
        in_data_root(r[3]@, "assets"@),
        in_data_root(r[4]@, "versions"@),
        in_data_root(r[5]@, "java"@),
{
    let mut r: Vec<String> = Vec::new();
    r.push(data_dir());
    r.push(instances_dir());
    r.push(libraries_dir());
    r.push(assets_dir());
    r.push(versions_dir());
    r.push(java_dir());
    r
}

/// A signed-in (or offline) player account.
#[derive(Debug, Clone)]
pub struct Account {
    pub uuid: String,
    pub name: String,
    pub access_token: String,
    pub refresh_token: Option<String>,
    pub offline: bool,
}

/// A copy of an optional string.
pub fn copy_opt(o: &Option<String>) -> (r: Option<String>)
    ensures
        r == *o,
{
    match o {
        Some(s) => Some(s.clone()),
        None => None,
    }
}

impl Account {
    /// A field-by-field copy.
    pub fn copy(&self) -> (r: Account)
        ensures
            r == *self,
    {
        Account {
            uuid: self.uuid.clone(),
            name: self.name.clone(),
            access_token: self.access_token.clone(),
            refresh_token: copy_opt(&self.refresh_token),
            offline: self.offline,
        }
    }
}

/// Launcher-wide settings.
#[derive(Debug, Clone)]
pub struct Settings {
    pub memory_mb: u32,
    pub java_path: Option<String>,
    pub accounts: Vec<Account>,
    pub active_account: Option<String>,
    pub last_version: Option<String>,
    pub width: u32,
    pub height: u32,
    pub fullscreen: bool,
    pub jvm_args: String,
    pub ingame_branding: bool,
}

/// Two settings agree on everything but the account list and the active account.
pub open spec fn same_but_accounts(a: Settings, b: Settings) -> bool {
    &&& a.memory_mb == b.memory_mb
    &&& a.java_path == b.java_path
    &&& a.last_version == b.last_version
    &&& a.width == b.width
    &&& a.height == b.height
    &&& a.fullscreen == b.fullscreen
    &&& a.jvm_args == b.jvm_args
    &&& a.ingame_branding == b.ingame_branding
}

/// Window width used when a settings file does not name one.
pub fn default_width() -> (r: u32)
    ensures
        r == 1280,
{
    1280
}

/// Window height used when a settings file does not name one.
pub fn default_height() -> (r: u32)
    ensures
        r == 720,
{
    720
}

/// Whether in-game branding is on when a settings file does not say.
pub fn default_ingame_branding() -> (r: bool)
    ensures
        r,
{
    true
}

/// The settings used when no readable settings file exists: 4096 MB of
/// memory, a 1280x720 window, and every other field empty, zero or off.
pub fn fallback_settings() -> (s: Settings)
    ensures
        s.memory_mb == 4096,
        s.width == 1280,
        s.height == 720,
        s.java_path is None,
        s.accounts@.len() == 0,
        s.active_account is None,
        s.last_version is None,
        !s.fullscreen,
        s.jvm_args@.len() == 0,
        !s.ingame_branding,
{
    Settings {
        memory_mb: 4096,
        java_path: None,
        accounts: Vec::new(),
        active_account: None,
        last_version: None,
        width: 1280,
        height: 720,
        fullscreen: false,
        jvm_args: String::new(),
        ingame_branding: false,
    }
}

} // verus!
