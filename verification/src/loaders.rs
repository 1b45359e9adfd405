//! Mod loaders (Fabric, Quilt, Forge, NeoForge): their metadata services,
//! version lists and profile names.
use vstd::prelude::*;
use crate::download::{job_view, DownloadJob};
use crate::manifest::{maven_path, maven_rel_path};
use crate::paths::{join_path, path_join};
use crate::sorting::{lex_lt, lemma_lex_irreflexive, lemma_lex_transitive, sort_stable, stable_sorted, sorted_by, text_lt, Ranked};
use crate::text::{
    chars_of, concat, concat3, push_all, split_char, split_on, starts_with, str_eq, str_starts_with,
    string_of_range, views,
};

verus! {

/// A loader release of Fabric (or Quilt, in the same shape).
#[derive(Debug, Clone)]
pub struct FabricLoaderVersion {
    pub separator: String,
    pub build: u32,
    pub maven: String,
    pub version: String,
    pub stable: bool,
}

/// A Forge or NeoForge release: its full version, the game version it is
/// for, and the loader's own version.
#[derive(Debug, Clone)]
pub struct ForgeVersionEntry {
    pub raw: String,
    pub mc: String,
    pub forge: String,
}

/// The Fabric metadata service.
pub open spec fn fabric_meta() -> Seq<char> {
    "https://meta.fabricmc.net/v2"@
}

/// The Quilt metadata service.
pub open spec fn quilt_meta() -> Seq<char> {
    "https://meta.quiltmc.org/v3"@
}

/// The loader list of a metadata service for a game version:
/// `<meta>/versions/loader/<game>`.
pub fn loader_list_url(meta: &str, game_version: &str) -> (r: String)
    ensures
        r@ == meta@ + "/versions/loader/"@ + game_version@,
{
    concat3(meta, "/versions/loader/", game_version)
}

/// The launcher profile of a loader release:
/// `<meta>/versions/loader/<game>/<loader>/profile/json`.
pub fn loader_profile_url(meta: &str, game_version: &str, loader_version: &str) -> (r: String)
    ensures
        r@ == meta@ + "/versions/loader/"@ + game_version@ + "/"@ + loader_version@ + "/profile/json"@,
{
    let mut r = concat3(meta, "/versions/loader/", game_version);
    push_all(&mut r, "/");
    push_all(&mut r, loader_version);
    push_all(&mut r, "/profile/json");
    r
}

/// The profile id of a Fabric-style loader: `<kind>-loader-<loader>-<game>`.
pub fn loader_profile_id(kind: &str, loader_version: &str, game_version: &str) -> (r: String)
    ensures
        r@ == kind@ + "-loader-"@ + loader_version@ + "-"@ + game_version@,
{
    let mut r = concat3(kind, "-loader-", loader_version);
    push_all(&mut r, "-");
    push_all(&mut r, game_version);
    r
}

/// A Quilt loader entry in Fabric's shape: entries without a version are
/// dropped; the separator is `.`, the build 0, a missing Maven coordinate
/// is empty and a missing stability flag is false.
pub fn quilt_loader(version: Option<String>, maven: Option<String>, stable: Option<bool>) -> (r: Option<FabricLoaderVersion>)
    ensures
        (match version {
            Some(v) => v@.len() == 0,
            None => true,
        }) ==> r is None,
        match version {
            Some(v) => v@.len() > 0 ==> (r matches Some(l) && l.separator@ == "."@ && l.build == 0
                && l.maven@ == (match maven {
                    Some(m) => m@,
                    None => Seq::<char>::empty(),
                }) && l.version@ == v@ && l.stable == (match stable {
                    Some(b) => b,
                    None => false,
                })),
            None => true,
        },
{
    let v = match version {
        Some(v) => v,
        None => {
            return None;
        },
    };
    if v.as_str().is_empty() {
        return None;
    }
    let m = match maven {
        Some(m) => m,
        None => String::new(),
    };
    let s = match stable {
        Some(b) => b,
        None => false,
    };
    Some(FabricLoaderVersion { separator: String::from_str("."), build: 0, maven: m, version: v, stable: s })
}

/// The download of a library of a Fabric-style profile: its Maven path
/// below its repository (`default_base` when it names none); a missing
/// name counts as empty.
pub fn loader_library_download(name: Option<String>, url: Option<String>, default_base: &str, libraries_dir: &str) -> (r: DownloadJob)
    ensures
        ({
            let n = match name {
                Some(x) => x@,
                None => Seq::<char>::empty(),
            };
            let base = match url {
                Some(u) => u@,
                None => default_base@,
            };
            job_view(r) == (base + maven_rel_path(n), path_join(libraries_dir@, maven_rel_path(n)), None::<Seq<char>>, true)
        }),
{
    let n = match name {
        Some(x) => x,
        None => String::new(),
    };
    let base = match url {
        Some(u) => u,
        None => String::from_str(default_base),
    };
    let rel = maven_path(n.as_str());
    DownloadJob {
        url: concat(base.as_str(), rel.as_str()),
        dest: join_path(libraries_dir, rel.as_str()),
        sha1: None,
        required: true,
    }
}

// ---------------------------------------------------------------------------
// Forge and NeoForge version lists
// ---------------------------------------------------------------------------

/// Newest first: a release comes before another whose full version is
/// lexicographically smaller.
impl Ranked for ForgeVersionEntry {
    open spec fn before(&self, other: &Self) -> bool {
        lex_lt(other.raw@, self.raw@)
    }

    proof fn lemma_irreflexive(a: &Self) {
        lemma_lex_irreflexive(a.raw@);
    }

    proof fn lemma_transitive(a: &Self, b: &Self, c: &Self) {
        lemma_lex_transitive(c.raw@, b.raw@, a.raw@);
    }

    fn precedes(&self, other: &Self) -> (r: bool) {
        text_lt(other.raw.as_str(), self.raw.as_str())
    }
}

/// A release as plain values.
pub open spec fn entry_view(e: ForgeVersionEntry) -> (Seq<char>, Seq<char>, Seq<char>) {
    (e.raw@, e.mc@, e.forge@)
}

/// Releases as plain values.
pub open spec fn entries_view(u: Seq<ForgeVersionEntry>) -> Seq<(Seq<char>, Seq<char>, Seq<char>)> {
    u.map_values(|e: ForgeVersionEntry| entry_view(e))
}

/// `s.strip_prefix(p).unwrap_or(s)`.
pub open spec fn without_prefix(s: Seq<char>, p: Seq<char>) -> Seq<char> {
    if starts_with(s, p) {
        s.skip(p.len() as int)
    } else {
        s
    }
}

/// The game version passes the filter (none, or equal to it).
pub open spec fn passes(mc: Seq<char>, filter: Option<Seq<char>>) -> bool {
    match filter {
        Some(f) => mc == f,
        None => true,
    }
}

/// The releases listed for one game version in Forge's metadata: each full
/// version, with the loader version after `<mc>-`.
pub open spec fn forge_group(mc: Seq<char>, raws: Seq<Seq<char>>) -> Seq<(Seq<char>, Seq<char>, Seq<char>)> {
    raws.map_values(|r: Seq<char>| (r, mc, without_prefix(r, mc + "-"@)))
}

/// The releases of Forge's metadata (game version with its full versions),
/// in order, for the game versions that pass the filter.
pub open spec fn forge_listing(groups: Seq<(Seq<char>, Seq<Seq<char>>)>, filter: Option<Seq<char>>) -> Seq<(Seq<char>, Seq<char>, Seq<char>)>
    decreases groups.len(),
{
    if groups.len() == 0 {
        Seq::empty()
    } else {
        let rest = forge_listing(groups.drop_last(), filter);
        if passes(groups.last().0, filter) {
            rest + forge_group(groups.last().0, groups.last().1)
        } else {
            rest
        }
    }
}

/// The metadata groups as plain values.
pub open spec fn groups_view(g: Seq<(String, Vec<String>)>) -> Seq<(Seq<char>, Seq<Seq<char>>)> {
    g.map_values(|p: (String, Vec<String>)| (p.0@, views(p.1@)))
}

/// The optional filter as plain values.
pub open spec fn filter_view(f: Option<String>) -> Option<Seq<char>> {
    match f {
        Some(s) => Some(s@),
        None => None,
    }
}

fn strip_version_prefix(raw: &str, mc: &str) -> (r: String)
    ensures
        r@ == without_prefix(raw@, mc@ + "-"@),
{
    let p = concat(mc, "-");
    if str_starts_with(raw, p.as_str()) {
        let v = chars_of(raw);
        let plen = chars_of(p.as_str()).len();
        let r = string_of_range(&v, plen, v.len());
        assert(v@.subrange(p@.len() as int, v@.len() as int) =~= raw@.skip(p@.len() as int));
        r
    } else {
        String::from_str(raw)
    }
}

/// The unsorted Forge releases for the given filter.
fn forge_entries(groups: &Vec<(String, Vec<String>)>, filter: &Option<String>) -> (r: Vec<ForgeVersionEntry>)
    ensures
        entries_view(r@) == forge_listing(groups_view(groups@), filter_view(*filter)),
{
    let mut out: Vec<ForgeVersionEntry> = Vec::new();
    let mut i: usize = 0;
    while i < groups.len()
        invariant
            i <= groups.len(),
            entries_view(out@) == forge_listing(groups_view(groups@).take(i as int), filter_view(*filter)),
        decreases groups.len() - i,
    {
        assert(groups_view(groups@).take(i + 1).drop_last() =~= groups_view(groups@).take(i as int));
        let mc = &groups[i].0;
        let pass = match filter {
            Some(f) => str_eq(mc.as_str(), f.as_str()),
            None => true,
        };
        if pass {
            let raws = &groups[i].1;
            let ghost start = entries_view(out@);
            let mut k: usize = 0;
            while k < raws.len()
                invariant
                    k <= raws.len(),
                    entries_view(out@) == start + forge_group(mc@, views(raws@).take(k as int)),
                decreases raws.len() - k,
            {
                let forge = strip_version_prefix(raws[k].as_str(), mc.as_str());
                let ghost before = out@;
                out.push(ForgeVersionEntry { raw: raws[k].clone(), mc: mc.clone(), forge });
                k = k + 1;
                assert(entries_view(out@) =~= entries_view(before).push(entry_view(out@.last())));
                assert(forge_group(mc@, views(raws@).take(k as int)) =~= forge_group(mc@, views(raws@).take(k - 1)).push(entry_view(out@.last())));
                assert(entries_view(out@) =~= start + forge_group(mc@, views(raws@).take(k as int)));
            }
            assert(views(raws@).take(raws.len() as int) =~= views(raws@));
        }
        i = i + 1;
    }
    assert(groups_view(groups@).take(groups.len() as int) =~= groups_view(groups@));
    out
}

/// Forge's releases from its metadata (each game version with its full
/// versions), only for the filter's game version when one is given, newest
/// full version first (a stable sort of the releases in metadata order).
pub fn forge_versions(groups: &Vec<(String, Vec<String>)>, filter: &Option<String>) -> (r: Vec<ForgeVersionEntry>)
    ensures
        exists|u: Seq<ForgeVersionEntry>|
            #[trigger] entries_view(u) == forge_listing(groups_view(groups@), filter_view(*filter))
            && r@ == stable_sorted(u),
        sorted_by(r@),
{
    let v = forge_entries(groups, filter);
    sort_stable(v)
}

/// The game version of a NeoForge release `major.minor.patch[-tag]`:
/// `1.major` when the minor part is `0`, else `1.major.minor`; none for
/// fewer than two parts.
pub open spec fn neoforge_game_version(neo: Seq<char>) -> Option<Seq<char>> {
    let cleaned = split_char(neo, '-')[0];
    let parts = split_char(cleaned, '.');
    if parts.len() < 2 {
        None
    } else if parts[1] == "0"@ {
        Some("1."@ + parts[0])
    } else {
        Some("1."@ + parts[0] + "."@ + parts[1])
    }
}

/// The game version a NeoForge release is for.
pub fn neoforge_mc_version(neo: &str) -> (r: Option<String>)
    ensures
        filter_view(r) == neoforge_game_version(neo@),
{
    proof {
        crate::text::lemma_split_nonempty(neo@, '-');
    }
    let pieces = split_on(neo, '-');
    assert(views(pieces@)[0] == pieces@[0]@);
    let parts = split_on(pieces[0].as_str(), '.');
    if parts.len() < 2 {
        return None;
    }
    assert(views(parts@)[0] == parts@[0]@ && views(parts@)[1] == parts@[1]@);
    proof {
        reveal_strlit("0");
        reveal_strlit("1.");
        reveal_strlit(".");
    }
    if str_eq(parts[1].as_str(), "0") {
        Some(concat("1.", parts[0].as_str()))
    } else {
        let mut s = concat3("1.", parts[0].as_str(), ".");
        push_all(&mut s, parts[1].as_str());
        Some(s)
    }
}

/// The texts of the `<version>…</version>` tags of Maven metadata (the
/// first group of the pattern `<version>([^<]+)</version>`, match by match
/// from the left), or nothing when the pattern fails to compile.
pub uninterp spec fn version_tag_values(xml: Seq<char>) -> Option<Seq<Seq<char>>>;

/// `regex::Regex::captures_iter` with the version-tag pattern; the error
/// text when the pattern fails to compile.
#[verifier::external_body]
fn find_version_tags(xml: &str) -> (r: Result<Vec<String>, String>)
    ensures
        r matches Ok(v) ==> version_tag_values(xml@) == Some(views(v@)),
        r is Err ==> version_tag_values(xml@) is None,
{
    match regex::Regex::new(r"<version>([^<]+)</version>") {
        Ok(re) => Ok(re.captures_iter(xml).map(|c| c[1].to_string()).collect()),
        Err(e) => Err(e.to_string()),
    }
}

/// The NeoForge releases among full versions, in order: those whose game
/// version can be told and passes the filter, with the full version as the
/// loader version.
pub open spec fn neoforge_listing(raws: Seq<Seq<char>>, filter: Option<Seq<char>>) -> Seq<(Seq<char>, Seq<char>, Seq<char>)>
    decreases raws.len(),
{
    if raws.len() == 0 {
        Seq::empty()
    } else {
        let rest = neoforge_listing(raws.drop_last(), filter);
        match neoforge_game_version(raws.last()) {
            Some(mc) => if passes(mc, filter) {
                rest.push((raws.last(), mc, raws.last()))
            } else {
                rest
            },
            None => rest,
        }
    }
}

/// NeoForge's releases among the given full versions, newest first (a
/// stable sort of the releases in the given order).
pub fn neoforge_versions(raws: &Vec<String>, filter: &Option<String>) -> (r: Vec<ForgeVersionEntry>)
    ensures
        exists|u: Seq<ForgeVersionEntry>|
            #[trigger] entries_view(u) == neoforge_listing(views(raws@), filter_view(*filter))
            && r@ == stable_sorted(u),
        sorted_by(r@),
{
    let mut out: Vec<ForgeVersionEntry> = Vec::new();
    let mut i: usize = 0;
    while i < raws.len()
        invariant
            i <= raws.len(),
            entries_view(out@) == neoforge_listing(views(raws@).take(i as int), filter_view(*filter)),
        decreases raws.len() - i,
    {
        assert(views(raws@).take(i + 1).drop_last() =~= views(raws@).take(i as int));
        assert(views(raws@).take(i + 1).last() == raws@[i as int]@);
        match neoforge_mc_version(raws[i].as_str()) {
            Some(mc) => {
                let pass = match filter {
                    Some(f) => str_eq(mc.as_str(), f.as_str()),
                    None => true,
                };
                if pass {
                    let ghost before = out@;
                    out.push(ForgeVersionEntry { raw: raws[i].clone(), mc, forge: raws[i].clone() });
                    assert(entries_view(out@) =~= entries_view(before).push(entry_view(out@.last())));
                }
            },
            None => {},
        }
        i = i + 1;
    }
    assert(views(raws@).take(raws.len() as int) =~= views(raws@));
    sort_stable(out)
}

/// NeoForge's releases listed in its Maven metadata, newest first; the
/// pattern's compile error when it fails to compile.
pub fn list_neoforge_versions(xml: &str, filter: &Option<String>) -> (r: Result<Vec<ForgeVersionEntry>, String>)
    ensures
        r is Err <==> version_tag_values(xml@) is None,
        match version_tag_values(xml@) {
            Some(tags) => r matches Ok(v) && sorted_by(v@) && exists|u: Seq<ForgeVersionEntry>|
                #[trigger] entries_view(u) == neoforge_listing(tags, filter_view(*filter)) && v@ == stable_sorted(u),
            None => true,
        },
{
    match find_version_tags(xml) {
        Ok(tags) => Ok(neoforge_versions(&tags, filter)),
        Err(e) => Err(e),
    }
}

// ---------------------------------------------------------------------------
// Installer jars and profiles
// ---------------------------------------------------------------------------

/// A Maven artifact's jar below its repository:
/// `<group path>/<version>/<name>-<version>-<classifier>.jar`.
pub open spec fn maven_jar(group_path: Seq<char>, name: Seq<char>, version: Seq<char>, classifier: Seq<char>) -> Seq<char> {
    group_path + "/"@ + version + "/"@ + name + "-"@ + version + "-"@ + classifier + ".jar"@
}

/// The jar of a Maven artifact with a classifier, below its repository.
pub fn maven_jar_path(group_path: &str, name: &str, version: &str, classifier: &str) -> (r: String)
    ensures
        r@ == maven_jar(group_path@, name@, version@, classifier@),
{
    let mut r = concat3(group_path, "/", version);
    push_all(&mut r, "/");
    push_all(&mut r, name);
    push_all(&mut r, "-");
    push_all(&mut r, version);
    push_all(&mut r, "-");
    push_all(&mut r, classifier);
    push_all(&mut r, ".jar");
    r
}

/// Where Forge's installer for a full version is downloaded from.
pub fn forge_installer_url(forge_full: &str) -> (r: String)
    ensures
        r@ == "https://maven.minecraftforge.net/"@ + maven_jar("net/minecraftforge/forge"@, "forge"@, forge_full@, "installer"@),
{
    let rel = maven_jar_path("net/minecraftforge/forge", "forge", forge_full, "installer");
    concat("https://maven.minecraftforge.net/", rel.as_str())
}

/// Where NeoForge's installer for a version is downloaded from.
pub fn neoforge_installer_url(neo_version: &str) -> (r: String)
    ensures
        r@ == "https://maven.neoforged.net/releases/"@ + maven_jar("net/neoforged/neoforge"@, "neoforge"@, neo_version@, "installer"@),
{
    let rel = maven_jar_path("net/neoforged/neoforge", "neoforge", neo_version, "installer");
    concat("https://maven.neoforged.net/releases/", rel.as_str())
}

/// Where an installer is kept: `versions/<kind>-<version>-installer.jar`.
pub fn installer_path(versions_dir: &str, kind: &str, version: &str) -> (r: String)
    ensures
        r@ == path_join(versions_dir@, kind@ + "-"@ + version@ + "-installer.jar"@),
{
    let mut f = concat3(kind, "-", version);
    push_all(&mut f, "-installer.jar");
    join_path(versions_dir, f.as_str())
}

/// The id of an installed loader profile: the id its version profile
/// names, else `<kind>-<version>`.
pub fn installed_profile_id(named: Option<String>, kind: &str, version: &str) -> (r: String)
    ensures
        r@ == match named {
            Some(n) => n@,
            None => kind@ + "-"@ + version@,
        },
{
    match named {
        Some(n) => n,
        None => concat3(kind, "-", version),
    }
}

/// Where an installer's version profile comes from.
#[derive(Debug, Clone, Copy, PartialEq, Eq, Structural)]
pub enum ProfileSource {
    /// The installer's own `version.json`.
    VersionFile,
    /// The `versionInfo` of its `install_profile.json` (older installers).
    VersionInfo,
    /// Neither: the installer format is not supported.
    Missing,
}

/// The version profile of an installer: its `version.json` when it has one,
/// else the install profile's `versionInfo` when that exists.
pub fn profile_source(has_version_file: bool, has_version_info: bool) -> (r: ProfileSource)
    ensures
        r == if has_version_file {
            ProfileSource::VersionFile
        } else if has_version_info {
            ProfileSource::VersionInfo
        } else {
            ProfileSource::Missing
        },
{
    if has_version_file {
        ProfileSource::VersionFile
    } else if has_version_info {
        ProfileSource::VersionInfo
    } else {
        ProfileSource::Missing
    }
}

/// The `inheritsFrom` an installed loader profile is given: the base game
/// version when the profile has no `inheritsFrom` key, nothing otherwise.
pub fn added_inherits_from(has_inherits_from: bool, base_version: &str) -> (r: Option<String>)
    ensures
        has_inherits_from ==> r is None,
        !has_inherits_from ==> (r matches Some(v) && v@ == base_version@),
{
    if has_inherits_from {
        None
    } else {
        Some(String::from_str(base_version))
    }
}

/// The Forge jar tried when an installer has no install profile: the
/// client jar first, then the universal jar.
pub fn forge_fallback_jar(forge_full: &str, universal: bool) -> (r: String)
    ensures
        r@ == maven_jar("net/minecraftforge/forge"@, "forge"@, forge_full@, if universal { "universal"@ } else { "client"@ }),
{
    if universal {
        maven_jar_path("net/minecraftforge/forge", "forge", forge_full, "universal")
    } else {
        maven_jar_path("net/minecraftforge/forge", "forge", forge_full, "client")
    }
}

/// The game version a NeoForge profile builds on: the one its install
/// profile names, else the requested one.
pub fn neoforge_base_version(profile_minecraft: Option<String>, mc_version: &str) -> (r: String)
    ensures
        r@ == match profile_minecraft {
            Some(m) => m@,
            None => mc_version@,
        },
{
    match profile_minecraft {
        Some(m) => m,
        None => String::from_str(mc_version),
    }
}

} // verus!
