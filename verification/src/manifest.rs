//! The parts of a version profile that launching reads: argument lists with
//! their rules, and Maven coordinates of libraries.
use vstd::prelude::*;
use crate::text::{
    chars_of, is_ws, join, push_all, replace_all, split_char, split_on, str_eq, views,
};

verus! {

/// A rule of a version profile: it applies when its operating-system name
/// (if any) is the current one and every feature it names has the value it
/// asks for; an applying rule allows or disallows.
#[derive(Debug, Clone)]
pub struct Rule {
    pub allow: bool,
    pub os_name: Option<String>,
    pub features: Vec<(String, bool)>,
}

/// A downloadable file of a library: where it goes below the libraries
/// directory, where it comes from and its SHA-1.
#[derive(Debug, Clone)]
pub struct Artifact {
    pub path: String,
    pub url: String,
    pub sha1: String,
}

/// The explicit downloads of a library: its main artifact and its
/// classifier artifacts (natives), keyed by classifier.
#[derive(Debug, Clone)]
pub struct LibraryDownloads {
    pub artifact: Option<Artifact>,
    pub classifiers: Vec<(String, Artifact)>,
}

/// A library of a version profile; `natives` tells whether it declares
/// per-platform native classifiers.
#[derive(Debug, Clone)]
pub struct Library {
    pub name: String,
    pub downloads: Option<LibraryDownloads>,
    pub url: Option<String>,
    pub rules: Vec<Rule>,
    pub natives: bool,
}

/// A launch argument: plain text, or values guarded by rules.
#[derive(Debug, Clone)]
pub enum Argument {
    Plain(String),
    Guarded { rules: Vec<Rule>, values: Vec<String> },
}

/// The value of a feature flag (absent flags are off).
pub open spec fn feature_value(features: Seq<(String, bool)>, name: Seq<char>) -> bool
    decreases features.len(),
{
    if features.len() == 0 {
        false
    } else if features[0].0@ == name {
        features[0].1
    } else {
        feature_value(features.drop_first(), name)
    }
}

/// Every feature a rule names has the required value.
pub open spec fn features_match(wanted: Seq<(String, bool)>, features: Seq<(String, bool)>) -> bool {
    forall|i: int| 0 <= i < wanted.len() ==> feature_value(features, wanted[i].0@) == wanted[i].1
}

/// The rule applies on operating system `os` with the given features.
pub open spec fn rule_applies(r: Rule, os: Seq<char>, features: Seq<(String, bool)>) -> bool {
    (match r.os_name {
        Some(n) => n@ == os,
        None => true,
    }) && features_match(r.features@, features)
}

/// The verdict of the applying rules seen so far: the last applying rule
/// decides, and with none applying the answer is no.
pub open spec fn rules_verdict(rules: Seq<Rule>, os: Seq<char>, features: Seq<(String, bool)>) -> bool
    decreases rules.len(),
{
    if rules.len() == 0 {
        false
    } else if rule_applies(rules.last(), os, features) {
        rules.last().allow
    } else {
        rules_verdict(rules.drop_last(), os, features)
    }
}

/// Whether a rule list allows something: an empty list allows it.
pub open spec fn rules_allow(rules: Seq<Rule>, os: Seq<char>, features: Seq<(String, bool)>) -> bool {
    rules.len() == 0 || rules_verdict(rules, os, features)
}

/// The value of a feature flag.
fn lookup_feature(features: &Vec<(String, bool)>, name: &String) -> (r: bool)
    ensures
        r == feature_value(features@, name@),
{
    let mut i: usize = 0;
    assert(features@.skip(0) =~= features@);
    while i < features.len()
        invariant
            i <= features.len(),
            feature_value(features@, name@) == feature_value(features@.skip(i as int), name@),
        decreases features.len() - i,
    {
        assert(features@.skip(i as int)[0] == features@[i as int]);
        if str_eq(features[i].0.as_str(), name.as_str()) {
            return features[i].1;
        }
        assert(features@.skip(i as int).drop_first() =~= features@.skip(i + 1));
        i = i + 1;
    }
    assert(features@.skip(i as int).len() == 0);
    false
}

/// Whether the rule applies on `os` with the given features.
fn applies(rule: &Rule, os: &str, features: &Vec<(String, bool)>) -> (r: bool)
    ensures
        r == rule_applies(*rule, os@, features@),
{
    match &rule.os_name {
        Some(n) => {
            if !str_eq(n.as_str(), os) {
                return false;
            }
        },
        None => {},
    }
    let mut i: usize = 0;
    while i < rule.features.len()
        invariant
            i <= rule.features.len(),
            forall|j: int| 0 <= j < i ==> feature_value(features@, rule.features@[j].0@) == rule.features@[j].1,
        decreases rule.features.len() - i,
    {
        if lookup_feature(features, &rule.features[i].0) != rule.features[i].1 {
            return false;
        }
        i = i + 1;
    }
    true
}

/// Whether a rule list allows something on `os` with the given features.
pub fn rule_allows_with_features(rules: &Vec<Rule>, os: &str, features: &Vec<(String, bool)>) -> (r: bool)
    ensures
        r == rules_allow(rules@, os@, features@),
{
    if rules.len() == 0 {
        return true;
    }
    let mut verdict = false;
    let mut i: usize = 0;
    while i < rules.len()
        invariant
            i <= rules.len(),
            verdict == rules_verdict(rules@.take(i as int), os@, features@),
        decreases rules.len() - i,
    {
        assert(rules@.take(i + 1).drop_last() =~= rules@.take(i as int));
        assert(rules@.take(i + 1).last() == rules@[i as int]);
        if applies(&rules[i], os, features) {
            verdict = rules[i].allow;
        }
        i = i + 1;
    }
    assert(rules@.take(rules.len() as int) =~= rules@);
    verdict
}

/// Whether a rule list allows something on `os` when no feature is on.
pub fn rule_allows(rules: &Vec<Rule>, os: &str) -> (r: bool)
    ensures
        r == rules_allow(rules@, os@, Seq::empty()),
{
    let none: Vec<(String, bool)> = Vec::new();
    rule_allows_with_features(rules, os, &none)
}

/// The repository path of a Maven coordinate `group:artifact:version` or
/// `group:artifact:version:classifier`: the group's dots become folders,
/// then the artifact and version folders, then
/// `artifact-version[-classifier].jar`. Other coordinates are used as given.
pub open spec fn maven_rel_path(name: Seq<char>) -> Seq<char> {
    let p = split_char(name, ':');
    if p.len() == 3 || p.len() == 4 {
        let file = if p.len() == 4 {
            p[1] + "-"@ + p[2] + "-"@ + p[3] + ".jar"@
        } else {
            p[1] + "-"@ + p[2] + ".jar"@
        };
        join(split_char(p[0], '.'), "/"@) + "/"@ + p[1] + "/"@ + p[2] + "/"@ + file
    } else {
        name
    }
}

/// The repository path of a Maven coordinate.
pub fn maven_path(name: &str) -> (r: String)
    ensures
        r@ == maven_rel_path(name@),
{
    proof {
        reveal_strlit("-");
        reveal_strlit("/");
        reveal_strlit(".jar");
    }
    let p = split_on(name, ':');
    if p.len() == 3 || p.len() == 4 {
        let groups = split_on(p[0].as_str(), '.');
        let mut r = crate::text::join_strs(&groups, "/");
        push_all(&mut r, "/");
        push_all(&mut r, p[1].as_str());
        push_all(&mut r, "/");
        push_all(&mut r, p[2].as_str());
        push_all(&mut r, "/");
        push_all(&mut r, p[1].as_str());
        push_all(&mut r, "-");
        push_all(&mut r, p[2].as_str());
        if p.len() == 4 {
            push_all(&mut r, "-");
            push_all(&mut r, p[3].as_str());
        }
        push_all(&mut r, ".jar");
        assert(views(p@)[0] == p@[0]@ && views(p@)[1] == p@[1]@ && views(p@)[2] == p@[2]@);
        assert(p.len() == 4 ==> views(p@)[3] == p@[3]@);
        assert(r@ =~= maven_rel_path(name@));
        r
    } else {
        String::from_str(name)
    }
}


// ---------------------------------------------------------------------------
// Inheritance between profiles
// ---------------------------------------------------------------------------

/// The parts of a merged version profile that launching reads.
#[derive(Debug, Clone)]
pub struct VersionProfile {
    pub id: Option<String>,
    pub main_class: Option<String>,
    pub minecraft_arguments: Option<String>,
    pub game_arguments: Option<Vec<Argument>>,
    pub jvm_arguments: Option<Vec<Argument>>,
    pub asset_index_id: Option<String>,
    pub assets: Option<String>,
    pub libraries: Vec<Library>,
}

/// A key of a JSON object: missing, `null`, or given a value.
#[derive(Debug, Clone)]
pub enum JsonEntry<T> {
    Missing,
    Null,
    Given(T),
}

/// The `arguments` object of a profile.
#[derive(Debug, Clone)]
pub struct ArgumentsEntry {
    pub game: JsonEntry<Vec<Argument>>,
    pub jvm: JsonEntry<Vec<Argument>>,
}

/// The `assetIndex` object of a profile (only its `id` is read).
#[derive(Debug, Clone)]
pub struct AssetIndexEntry {
    pub id: JsonEntry<String>,
}

/// A version profile's JSON, as far as launching reads it: each key
/// missing, `null` or given.
#[derive(Debug, Clone)]
pub struct ProfileJson {
    pub id: JsonEntry<String>,
    pub main_class: JsonEntry<String>,
    pub minecraft_arguments: JsonEntry<String>,
    pub arguments: JsonEntry<ArgumentsEntry>,
    pub asset_index: JsonEntry<AssetIndexEntry>,
    pub assets: JsonEntry<String>,
    pub libraries: Vec<Library>,
}

/// The value of a key, when it is given one (neither missing nor `null`).
pub open spec fn given<T>(e: JsonEntry<T>) -> Option<T> {
    match e {
        JsonEntry::Given(x) => Some(x),
        _ => None,
    }
}

/// A plain value merged under an overlay: the overlay's entry replaces it
/// (a `null` too) unless the overlay lacks the key.
pub open spec fn over<T>(base: JsonEntry<T>, top: JsonEntry<T>) -> JsonEntry<T> {
    if top is Missing { base } else { top }
}

/// The `arguments` object merged under an overlay: objects on both sides
/// merge key by key; otherwise the overlay's entry replaces it unless the
/// overlay lacks the key.
pub open spec fn over_arguments(base: JsonEntry<ArgumentsEntry>, top: JsonEntry<ArgumentsEntry>) -> JsonEntry<ArgumentsEntry> {
    match top {
        JsonEntry::Missing => base,
        JsonEntry::Null => JsonEntry::Null,
        JsonEntry::Given(t) => match base {
            JsonEntry::Given(b) => JsonEntry::Given(ArgumentsEntry { game: over(b.game, t.game), jvm: over(b.jvm, t.jvm) }),
            _ => JsonEntry::Given(t),
        },
    }
}

/// The `assetIndex` object merged under an overlay, as `over_arguments`.
pub open spec fn over_asset_index(base: JsonEntry<AssetIndexEntry>, top: JsonEntry<AssetIndexEntry>) -> JsonEntry<AssetIndexEntry> {
    match top {
        JsonEntry::Missing => base,
        JsonEntry::Null => JsonEntry::Null,
        JsonEntry::Given(t) => match base {
            JsonEntry::Given(b) => JsonEntry::Given(AssetIndexEntry { id: over(b.id, t.id) }),
            _ => JsonEntry::Given(t),
        },
    }
}

/// A plain key merged down a chain (the profile first, then its parent, and
/// so on): the nearest profile that has the key decides, `null` included.
pub open spec fn merged_entry<T>(s: Seq<JsonEntry<T>>) -> JsonEntry<T>
    decreases s.len(),
{
    if s.len() == 0 {
        JsonEntry::Missing
    } else {
        over(merged_entry(s.drop_first()), s[0])
    }
}

/// The `arguments` objects merged down a chain, the oldest ancestor first
/// and the profile itself last.
pub open spec fn merged_arguments(s: Seq<JsonEntry<ArgumentsEntry>>) -> JsonEntry<ArgumentsEntry>
    decreases s.len(),
{
    if s.len() == 0 {
        JsonEntry::Missing
    } else {
        over_arguments(merged_arguments(s.drop_first()), s[0])
    }
}

/// The `assetIndex` objects merged down a chain.
pub open spec fn merged_asset_index(s: Seq<JsonEntry<AssetIndexEntry>>) -> JsonEntry<AssetIndexEntry>
    decreases s.len(),
{
    if s.len() == 0 {
        JsonEntry::Missing
    } else {
        over_asset_index(merged_asset_index(s.drop_first()), s[0])
    }
}

/// The libraries of every profile of a chain, the profile's own first.
pub open spec fn chain_libraries(chain: Seq<ProfileJson>) -> Seq<Library>
    decreases chain.len(),
{
    if chain.len() == 0 {
        Seq::empty()
    } else {
        chain[0].libraries@ + chain_libraries(chain.drop_first())
    }
}

fn over_exec<T>(base: JsonEntry<T>, top: JsonEntry<T>) -> (r: JsonEntry<T>)
    ensures
        r == over(base, top),
{
    match top {
        JsonEntry::Missing => base,
        t => t,
    }
}

fn over_arguments_exec(base: JsonEntry<ArgumentsEntry>, top: JsonEntry<ArgumentsEntry>) -> (r: JsonEntry<ArgumentsEntry>)
    ensures
        r == over_arguments(base, top),
{
    match top {
        JsonEntry::Missing => base,
        JsonEntry::Null => JsonEntry::Null,
        JsonEntry::Given(t) => match base {
            JsonEntry::Given(b) => JsonEntry::Given(ArgumentsEntry { game: over_exec(b.game, t.game), jvm: over_exec(b.jvm, t.jvm) }),
            _ => JsonEntry::Given(t),
        },
    }
}

fn over_asset_index_exec(base: JsonEntry<AssetIndexEntry>, top: JsonEntry<AssetIndexEntry>) -> (r: JsonEntry<AssetIndexEntry>)
    ensures
        r == over_asset_index(base, top),
{
    match top {
        JsonEntry::Missing => base,
        JsonEntry::Null => JsonEntry::Null,
        JsonEntry::Given(t) => match base {
            JsonEntry::Given(b) => JsonEntry::Given(AssetIndexEntry { id: over_exec(b.id, t.id) }),
            _ => JsonEntry::Given(t),
        },
    }
}

/// The value of an entry, when it is given one.
fn given_exec<T>(e: JsonEntry<T>) -> (r: Option<T>)
    ensures
        r == given(e),
{
    match e {
        JsonEntry::Given(x) => Some(x),
        _ => None,
    }
}

/// A profile merged with those it inherits from (`chain` lists the profile
/// first, then its parent, and so on), as JSON objects merge: a key of a
/// nearer profile replaces that of an ancestor, a `null` too; the
/// `arguments` and `assetIndex` objects merge key by key; a key missing
/// everywhere, or `null` where it is decided, is absent from the result.
/// The libraries of all of them are listed, the profile's own first.
pub fn merge_versions(chain: Vec<ProfileJson>) -> (r: VersionProfile)
    ensures
        r.id == given(merged_entry(chain@.map_values(|p: ProfileJson| p.id))),
        r.main_class == given(merged_entry(chain@.map_values(|p: ProfileJson| p.main_class))),
        r.minecraft_arguments == given(merged_entry(chain@.map_values(|p: ProfileJson| p.minecraft_arguments))),
        r.game_arguments == match merged_arguments(chain@.map_values(|p: ProfileJson| p.arguments)) {
            JsonEntry::Given(a) => given(a.game),
            _ => None,
        },
        r.jvm_arguments == match merged_arguments(chain@.map_values(|p: ProfileJson| p.arguments)) {
            JsonEntry::Given(a) => given(a.jvm),
            _ => None,
        },
        r.asset_index_id == match merged_asset_index(chain@.map_values(|p: ProfileJson| p.asset_index)) {
            JsonEntry::Given(a) => given(a.id),
            _ => None,
        },
        r.assets == given(merged_entry(chain@.map_values(|p: ProfileJson| p.assets))),
        r.libraries@ == chain_libraries(chain@),
{
    let ghost all = chain@;
    let mut rest = chain;
    let mut id: JsonEntry<String> = JsonEntry::Missing;
    let mut main_class: JsonEntry<String> = JsonEntry::Missing;
    let mut minecraft_arguments: JsonEntry<String> = JsonEntry::Missing;
    let mut arguments: JsonEntry<ArgumentsEntry> = JsonEntry::Missing;
    let mut asset_index: JsonEntry<AssetIndexEntry> = JsonEntry::Missing;
    let mut assets: JsonEntry<String> = JsonEntry::Missing;
    let mut libraries: Vec<Library> = Vec::new();
    while rest.len() > 0
        invariant
            rest@ == all.take(rest.len() as int),
            rest.len() <= all.len(),
            id == merged_entry(all.skip(rest.len() as int).map_values(|p: ProfileJson| p.id)),
            main_class == merged_entry(all.skip(rest.len() as int).map_values(|p: ProfileJson| p.main_class)),
            minecraft_arguments == merged_entry(all.skip(rest.len() as int).map_values(|p: ProfileJson| p.minecraft_arguments)),
            arguments == merged_arguments(all.skip(rest.len() as int).map_values(|p: ProfileJson| p.arguments)),
            asset_index == merged_asset_index(all.skip(rest.len() as int).map_values(|p: ProfileJson| p.asset_index)),
            assets == merged_entry(all.skip(rest.len() as int).map_values(|p: ProfileJson| p.assets)),
            libraries@ == chain_libraries(all.skip(rest.len() as int)),
        decreases rest.len(),
    {
        let ghost k = (rest.len() - 1) as int;
        let ghost tail = all.skip(k + 1);
        let ghost here = all.skip(k);
        assert(here =~= seq![all[k]] + tail);
        assert(here.drop_first() =~= tail);
        let p = rest.pop().unwrap();
        assert(rest@ =~= all.take(k));
        assert(p == all[k]);
        id = over_exec(id, p.id);
        main_class = over_exec(main_class, p.main_class);
        minecraft_arguments = over_exec(minecraft_arguments, p.minecraft_arguments);
        arguments = over_arguments_exec(arguments, p.arguments);
        asset_index = over_asset_index_exec(asset_index, p.asset_index);
        assets = over_exec(assets, p.assets);
        let mut libs = p.libraries;
        let ghost own = libs@;
        let mut older = libraries;
        libs.append(&mut older);
        libraries = libs;
        assert(libraries@ == own + chain_libraries(tail));
        proof {
            assert(here.map_values(|p: ProfileJson| p.id).drop_first() =~= tail.map_values(|p: ProfileJson| p.id));
            assert(here.map_values(|p: ProfileJson| p.main_class).drop_first() =~= tail.map_values(|p: ProfileJson| p.main_class));
            assert(here.map_values(|p: ProfileJson| p.minecraft_arguments).drop_first() =~= tail.map_values(|p: ProfileJson| p.minecraft_arguments));
            assert(here.map_values(|p: ProfileJson| p.arguments).drop_first() =~= tail.map_values(|p: ProfileJson| p.arguments));
            assert(here.map_values(|p: ProfileJson| p.asset_index).drop_first() =~= tail.map_values(|p: ProfileJson| p.asset_index));
            assert(here.map_values(|p: ProfileJson| p.assets).drop_first() =~= tail.map_values(|p: ProfileJson| p.assets));
        }
    }
    assert(all.skip(0) =~= all);
    let (game_arguments, jvm_arguments) = match arguments {
        JsonEntry::Given(a) => (given_exec(a.game), given_exec(a.jvm)),
        _ => (None, None),
    };
    let asset_index_id = match asset_index {
        JsonEntry::Given(a) => given_exec(a.id),
        _ => None,
    };
    VersionProfile {
        id: given_exec(id),
        main_class: given_exec(main_class),
        minecraft_arguments: given_exec(minecraft_arguments),
        game_arguments,
        jvm_arguments,
        asset_index_id,
        assets: given_exec(assets),
        libraries,
    }
}

} // verus!
