//! Modrinth modpacks (`.mrpack`): what a pack's index decides about the
//! instance it becomes.
use vstd::prelude::*;
use crate::forge::{entry_below, entry_below_spec, opt_str};
use crate::instances::{trim_dash_chars, trim_dashes, InstanceMeta};
use crate::text::{
    ascii_lower, chars_of, concat, concat3, contains, decimal, decimal_string, is_ascii_alnum,
    is_ascii_alphanumeric, push_all, str_contains, str_eq, string_of, to_ascii_lowercase, trim,
    trim_str,
};

verus! {

/// What installing a pack produced.
#[derive(Debug, Clone)]
pub struct MrPackInstallResult {
    pub instance_id: String,
    pub name: String,
    pub game_version: String,
    pub loader: String,
}

/// The dependencies a pack's index declares.
#[derive(Debug, Clone)]
pub struct MrPackDeps {
    pub minecraft: Option<String>,
    pub fabric_loader: Option<String>,
    pub quilt_loader: Option<String>,
    pub forge: Option<String>,
    pub neoforge: Option<String>,
}

/// The game version a pack is for: packs for another game than Minecraft,
/// and packs without a Minecraft dependency, are refused.
pub fn pack_game_version(game: &str, deps: &MrPackDeps) -> (r: Result<String, String>)
    ensures
        game@ != "minecraft"@ ==> (r matches Err(e) && e@ == "Unsupported mrpack game: "@ + game@),
        game@ == "minecraft"@ && deps.minecraft is None ==> (r matches Err(e) && e@ == "Modpack missing minecraft dependency"@),
        game@ == "minecraft"@ && deps.minecraft is Some ==> (r matches Ok(v) && v@ == deps.minecraft->0@),
{
    if !str_eq(game, "minecraft") {
        return Err(concat("Unsupported mrpack game: ", game));
    }
    match &deps.minecraft {
        Some(m) => Ok(m.clone()),
        None => Err(String::from_str("Modpack missing minecraft dependency")),
    }
}

/// The instance's name: the suggested one unless it is blank, else the
/// pack's own.
pub fn pack_name(suggested: Option<String>, index_name: &str) -> (r: String)
    ensures
        r@ == match suggested {
            Some(s) => if trim(s@).len() > 0 { s@ } else { index_name@ },
            None => index_name@,
        },
{
    match suggested {
        Some(s) => {
            let t = trim_str(s.as_str());
            if t.as_str().is_empty() {
                String::from_str(index_name)
            } else {
                s
            }
        },
        None => String::from_str(index_name),
    }
}

/// The loader a pack installs, by the first dependency present among
/// Fabric, Quilt, NeoForge and Forge; vanilla without any.
#[derive(Debug, Clone)]
pub enum PackLoader {
    Fabric(String),
    Quilt(String),
    NeoForge(String),
    Forge(String),
    Vanilla,
}

/// Forge's full version for a pack: the dependency as given when it
/// already mentions the game version, else `<game>-<forge>`.
pub open spec fn forge_full(mc: Seq<char>, forge: Seq<char>) -> Seq<char> {
    if contains(forge, mc) {
        forge
    } else {
        mc + "-"@ + forge
    }
}

/// A loader choice as plain values: its kind and version.
pub open spec fn loader_view(l: PackLoader) -> (Seq<char>, Seq<char>) {
    match l {
        PackLoader::Fabric(v) => ("fabric"@, v@),
        PackLoader::Quilt(v) => ("quilt"@, v@),
        PackLoader::NeoForge(v) => ("neoforge"@, v@),
        PackLoader::Forge(v) => ("forge"@, v@),
        PackLoader::Vanilla => ("vanilla"@, Seq::empty()),
    }
}

/// The loader a pack's dependencies call for, as plain values.
pub open spec fn chosen_loader(mc: Seq<char>, deps: MrPackDeps) -> (Seq<char>, Seq<char>) {
    match (deps.fabric_loader, deps.quilt_loader, deps.neoforge, deps.forge) {
        (Some(l), _, _, _) => ("fabric"@, l@),
        (None, Some(l), _, _) => ("quilt"@, l@),
        (None, None, Some(l), _) => ("neoforge"@, l@),
        (None, None, None, Some(f)) => ("forge"@, forge_full(mc, f@)),
        (None, None, None, None) => ("vanilla"@, Seq::empty()),
    }
}

/// The loader to install for a pack on game version `mc`; the Forge
/// version is the full one.
pub fn pack_loader(mc: &str, deps: &MrPackDeps) -> (r: PackLoader)
    ensures
        loader_view(r) == chosen_loader(mc@, *deps),
{
    if let Some(l) = &deps.fabric_loader {
        return PackLoader::Fabric(l.clone());
    }
    if let Some(l) = &deps.quilt_loader {
        return PackLoader::Quilt(l.clone());
    }
    if let Some(l) = &deps.neoforge {
        return PackLoader::NeoForge(l.clone());
    }
    if let Some(f) = &deps.forge {
        if str_contains(f.as_str(), mc) {
            return PackLoader::Forge(f.clone());
        }
        return PackLoader::Forge(concat3(mc, "-", f.as_str()));
    }
    PackLoader::Vanilla
}

/// The name an instance records for a pack's loader.
pub fn loader_name(l: &PackLoader) -> (r: String)
    ensures
        r@ == match l {
            PackLoader::Fabric(_) => "fabric"@,
            PackLoader::Quilt(_) => "quilt"@,
            PackLoader::NeoForge(_) => "neoforge"@,
            PackLoader::Forge(_) => "forge"@,
            PackLoader::Vanilla => "vanilla"@,
        },
{
    match l {
        PackLoader::Fabric(_) => String::from_str("fabric"),
        PackLoader::Quilt(_) => String::from_str("quilt"),
        PackLoader::NeoForge(_) => String::from_str("neoforge"),
        PackLoader::Forge(_) => String::from_str("forge"),
        PackLoader::Vanilla => String::from_str("vanilla"),
    }
}

/// A slug character: ASCII letters and digits lowercased, anything else `-`.
pub open spec fn slug_char(c: char) -> char {
    if is_ascii_alnum(c) {
        ascii_lower(c)
    } else {
        '-'
    }
}

/// The folder name for a pack's instance: its name as slug characters
/// without leading or trailing `-`, at most 48 characters; `modpack` when
/// nothing is left.
pub open spec fn slug(name: Seq<char>) -> Seq<char> {
    let s = trim_dashes(name.map_values(|c: char| slug_char(c)));
    if s.len() == 0 {
        "modpack"@
    } else if s.len() > 48 {
        s.take(48)
    } else {
        s
    }
}

/// The folder name for a pack's instance.
pub fn slugify(name: &str) -> (r: String)
    ensures
        r@ == slug(name@),
{
    let v = chars_of(name);
    let mut mapped: Vec<char> = Vec::new();
    let mut i: usize = 0;
    while i < v.len()
        invariant
            i <= v.len(),
            v@ == name@,
            mapped@ == v@.take(i as int).map_values(|c: char| slug_char(c)),
        decreases v.len() - i,
    {
        let c = v[i];
        let k = if is_ascii_alphanumeric(c) { to_ascii_lowercase(c) } else { '-' };
        mapped.push(k);
        i = i + 1;
        assert(mapped@ =~= v@.take(i as int).map_values(|c: char| slug_char(c)));
    }
    assert(v@.take(v.len() as int) =~= v@);
    let t = trim_dash_chars(&mapped);
    if t.len() == 0 {
        return String::from_str("modpack");
    }
    if t.len() > 48 {
        let r = crate::text::string_of_range(&t, 0, 48);
        assert(t@.subrange(0, 48) =~= t@.take(48));
        return r;
    }
    string_of(&t)
}

/// The `n`-th folder name tried for a pack's instance (from 1): the slug
/// itself, then `<slug>-2`, `<slug>-3`, and so on.
pub open spec fn instance_candidate(base: Seq<char>, n: nat) -> Seq<char> {
    if n <= 1 {
        base
    } else {
        base + "-"@ + decimal(n)
    }
}

/// The `n`-th folder name tried for a pack's instance; the first that is
/// not taken is used.
pub fn unique_instance_id(base: &str, n: u32) -> (r: String)
    ensures
        r@ == instance_candidate(base@, n as nat),
{
    if n <= 1 {
        String::from_str(base)
    } else {
        let d = decimal_string(n as u64);
        concat3(base, "-", d.as_str())
    }
}

/// A pack file is installed unless the client is declared unsupported.
pub fn pack_file_wanted(client_env: &Option<String>) -> (r: bool)
    ensures
        r == match client_env {
            Some(e) => e@ != "unsupported"@,
            None => true,
        },
{
    match client_env {
        Some(e) => !str_eq(e.as_str(), "unsupported"),
        None => true,
    }
}

/// Where a pack file is downloaded from: its first URL; a file without one
/// is an error.
pub fn pack_file_url(path: &str, downloads: &Vec<String>) -> (r: Result<String, String>)
    ensures
        downloads.len() > 0 ==> (r matches Ok(u) && u@ == downloads@[0]@),
        downloads.len() == 0 ==> (r matches Err(e) && e@ == "No download URL for "@ + path@),
{
    if downloads.len() > 0 {
        Ok(downloads[0].clone())
    } else {
        Err(concat("No download URL for ", path))
    }
}

/// Where an entry of a pack's archive goes below the instance: the entries
/// below `overrides/`, then those below `client-overrides/`, without the
/// prefix; other entries and folders are not extracted.
pub fn override_path(name: &str, client: bool) -> (r: Option<String>)
    ensures
        opt_str(r) == entry_below_spec(name@, if client { "client-overrides/"@ } else { "overrides/"@ }),
{
    proof {
        reveal_strlit("client-overrides/");
        reveal_strlit("overrides/");
    }
    if client {
        entry_below(name, "client-overrides/")
    } else {
        entry_below(name, "overrides/")
    }
}

/// The instance's metadata after installing a pack: its name, the pack's
/// summary as notes (empty without one), the game version and loader;
/// everything else as it was.
pub fn pack_meta(meta: InstanceMeta, name: String, summary: Option<String>, mc: String, loader: String) -> (r: InstanceMeta)
    ensures
        r.name == name,
        r.notes@ == match summary {
            Some(s) => s@,
            None => Seq::<char>::empty(),
        },
        r.game_version == Some(mc),
        r.loader == Some(loader),
        r.id == meta.id,
        r.version_id == meta.version_id,
        r.memory_mb == meta.memory_mb,
        r.jvm_args == meta.jvm_args,
        r.java_path == meta.java_path,
        r.last_played == meta.last_played,
        r.play_count == meta.play_count,
        r.created_at == meta.created_at,
{
    let mut m = meta;
    m.name = name;
    m.notes = match summary {
        Some(s) => s,
        None => String::new(),
    };
    m.game_version = Some(mc);
    m.loader = Some(loader);
    m
}


/// A character allowed in a pack's folder name.
pub open spec fn folder_char(c: char) -> bool {
    ('a' <= c && c <= 'z') || ('0' <= c && c <= '9') || c == '-'
}

/// Law: a pack's folder name is never empty, has at most 48 characters,
/// uses only lowercase ASCII letters, digits and `-`, and does not start
/// with `-`.
pub proof fn lemma_slug_is_folder_name(name: Seq<char>)
    ensures
        0 < slug(name).len() <= 48,
        forall|i: int| 0 <= i < slug(name).len() ==> folder_char(#[trigger] slug(name)[i]),
        slug(name)[0] != '-',
{
    reveal_strlit("modpack");
    let m = name.map_values(|c: char| slug_char(c));
    assert forall|i: int| 0 <= i < m.len() implies folder_char(#[trigger] m[i]) by {
        let c = name[i];
        if 'A' <= c && c <= 'Z' {
            assert(('A' as u32) <= (c as u32) <= ('Z' as u32));
            assert(ascii_lower(c) == ((c as u32) + 32) as char);
        }
    }
    crate::instances::lemma_trim_dashes(m);
    let t = trim_dashes(m);
    let (a, b) = choose|a: int, b: int| 0 <= a <= b <= m.len() && #[trigger] m.subrange(a, b) == t;
    assert forall|i: int| 0 <= i < t.len() implies folder_char(#[trigger] t[i]) by {
        assert(t[i] == m[a + i]);
    }
}

} // verus!
