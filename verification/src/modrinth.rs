//! Modrinth: search and version queries, and the mods of an instance.
use vstd::prelude::*;
use vstd::utf8::encode_utf8;
use crate::paths::{join_path, path_join};
use crate::sorting::{lex_sorted, sort_strings};
use crate::text::{concat, concat3, ends_with, push_all, starts_with, str_ends_with, views};

verus! {

/// A project found by a search.
#[derive(Debug, Clone)]
pub struct ModrinthHit {
    pub project_id: String,
    pub slug: String,
    pub title: String,
    pub description: String,
    pub categories: Vec<String>,
    pub downloads: u64,
    pub icon_url: Option<String>,
    pub project_type: String,
}

/// A page of search results.
#[derive(Debug, Clone)]
pub struct ModrinthSearch {
    pub hits: Vec<ModrinthHit>,
    pub total_hits: u64,
}

/// A version of a project.
#[derive(Debug, Clone)]
pub struct ModrinthVersion {
    pub id: String,
    pub name: String,
    pub version_number: String,
    pub game_versions: Vec<String>,
    pub loaders: Vec<String>,
    pub files: Vec<ModrinthFile>,
}

/// A file of a project version.
#[derive(Debug, Clone)]
pub struct ModrinthFile {
    pub url: String,
    pub filename: String,
    pub primary: bool,
    pub size: u64,
}

/// Bytes left as they are by URL encoding: ASCII letters and digits, `-`,
/// `.`, `_` and `~`.
pub open spec fn url_safe(b: u8) -> bool {
    (48 <= b <= 57) || (65 <= b <= 90) || (97 <= b <= 122) || b == 45 || b == 46 || b == 95 || b == 126
}

/// An uppercase hexadecimal digit.
pub open spec fn hex_upper(d: u8) -> char {
    if d < 10 {
        ((d + 48) as u8) as char
    } else {
        ((d + 55) as u8) as char
    }
}

/// Percent-encoding of bytes: safe bytes are kept, every other byte
/// becomes `%` and two uppercase hexadecimal digits.
pub open spec fn percent_encoded(b: Seq<u8>) -> Seq<char>
    decreases b.len(),
{
    if b.len() == 0 {
        Seq::empty()
    } else {
        let rest = percent_encoded(b.drop_first());
        if url_safe(b[0]) {
            seq![b[0] as char] + rest
        } else {
            seq!['%', hex_upper(b[0] / 16), hex_upper(b[0] % 16)] + rest
        }
    }
}

/// `urlencoding::encode`: the text's UTF-8 bytes percent-encoded, every
/// byte except ASCII letters, digits, `-`, `.`, `_` and `~`, with
/// uppercase hexadecimal digits.
#[verifier::external_body]
fn url_encode(s: &str) -> (r: String)
    ensures
        r@ == percent_encoded(encode_utf8(s@)),
{
    urlencoding::encode(s).into_owned()
}

/// The JSON text of a list of string lists, or nothing when serializing
/// fails.
pub uninterp spec fn json_text(lists: Seq<Seq<Seq<char>>>) -> Option<Seq<char>>;

/// The lists as plain values.
pub open spec fn lists_view(l: Seq<Vec<String>>) -> Seq<Seq<Seq<char>>> {
    l.map_values(|v: Vec<String>| views(v@))
}

/// `serde_json::to_string` of a list of string lists, with the error's
/// text when it fails.
#[verifier::external_body]
fn json_of_lists(lists: &Vec<Vec<String>>) -> (r: Result<String, String>)
    ensures
        r matches Ok(t) ==> json_text(lists_view(lists@)) == Some(t@),
        r is Err ==> json_text(lists_view(lists@)) is None,
{
    match serde_json::to_string(lists) {
        Ok(t) => Ok(t),
        Err(e) => Err(e.to_string()),
    }
}

/// The search facets: one project type only, then the loader and the game
/// version when given and not empty.
pub open spec fn facets(project_type: Seq<char>, loader: Option<Seq<char>>, game_version: Option<Seq<char>>) -> Seq<Seq<Seq<char>>> {
    let base: Seq<Seq<Seq<char>>> = seq![seq!["project_type:"@ + project_type]];
    let with_loader = match loader {
        Some(l) => if l.len() > 0 { base.push(seq!["categories:"@ + l]) } else { base },
        None => base,
    };
    match game_version {
        Some(v) => if v.len() > 0 { with_loader.push(seq!["versions:"@ + v]) } else { with_loader },
        None => with_loader,
    }
}

/// The facets of a search for projects of one type (`mod`, `modpack`,
/// `resourcepack`, `shader`).
pub fn search_facets(project_type: &str, loader: &Option<String>, game_version: &Option<String>) -> (r: Vec<Vec<String>>)
    ensures
        lists_view(r@) == facets(project_type@, crate::forge::opt_str(*loader), crate::forge::opt_str(*game_version)),
{
    let mut r: Vec<Vec<String>> = Vec::new();
    let mut first: Vec<String> = Vec::new();
    first.push(concat("project_type:", project_type));
    assert(views(first@) =~= seq!["project_type:"@ + project_type@]);
    r.push(first);
    assert(lists_view(r@) =~= seq![seq!["project_type:"@ + project_type@]]);
    match loader {
        Some(l) => {
            if !l.as_str().is_empty() {
                let mut f: Vec<String> = Vec::new();
                f.push(concat("categories:", l.as_str()));
                assert(views(f@) =~= seq!["categories:"@ + l@]);
                let ghost before = r@;
                r.push(f);
                assert(lists_view(r@) =~= lists_view(before).push(seq!["categories:"@ + l@]));
            }
        },
        None => {},
    }
    match game_version {
        Some(v) => {
            if !v.as_str().is_empty() {
                let mut f: Vec<String> = Vec::new();
                f.push(concat("versions:", v.as_str()));
                assert(views(f@) =~= seq!["versions:"@ + v@]);
                let ghost before = r@;
                r.push(f);
                assert(lists_view(r@) =~= lists_view(before).push(seq!["versions:"@ + v@]));
            }
        },
        None => {},
    }
    r
}

/// The Modrinth API.
pub open spec fn api() -> Seq<char> {
    "https://api.modrinth.com/v2"@
}

/// The search query for a text and facets' JSON text: twenty results.
pub open spec fn search_query(query: Seq<char>, facets_json: Seq<char>) -> Seq<char> {
    api() + "/search?query="@ + percent_encoded(encode_utf8(query)) + "&limit=20&facets="@
        + percent_encoded(encode_utf8(facets_json))
}

/// The search URL for a query and facets' JSON text.
pub fn search_url(query: &str, facets_json: &str) -> (r: String)
    ensures
        r@ == search_query(query@, facets_json@),
{
    let q = url_encode(query);
    let f = url_encode(facets_json);
    let mut r = concat3("https://api.modrinth.com/v2", "/search?query=", q.as_str());
    push_all(&mut r, "&limit=20&facets=");
    push_all(&mut r, f.as_str());
    r
}

/// The URL of a search for projects of one type, or the serializer's error.
pub fn project_search_url(project_type: &str, query: &str, loader: &Option<String>, game_version: &Option<String>) -> (r: Result<String, String>)
    ensures
        ({
            let f = facets(project_type@, crate::forge::opt_str(*loader), crate::forge::opt_str(*game_version));
            match json_text(f) {
                Some(t) => r matches Ok(u) && u@ == search_query(query@, t),
                None => r is Err,
            }
        }),
{
    let f = search_facets(project_type, loader, game_version);
    match json_of_lists(&f) {
        Ok(t) => Ok(search_url(query, t.as_str())),
        Err(e) => Err(e),
    }
}

/// The URL of a mod search, filtered by loader and game version, or the
/// serializer's error.
pub fn mod_search_url(query: &str, loader: &Option<String>, game_version: &Option<String>) -> (r: Result<String, String>)
    ensures
        ({
            let f = facets("mod"@, crate::forge::opt_str(*loader), crate::forge::opt_str(*game_version));
            match json_text(f) {
                Some(t) => r matches Ok(u) && u@ == search_query(query@, t),
                None => r is Err,
            }
        }),
{
    project_search_url("mod", query, loader, game_version)
}

/// The versions of a project, filtered by game version and loader when
/// given: each filter is a JSON list of one string, URL-encoded.
pub open spec fn versions_query(project: Seq<char>, game_version: Option<Seq<char>>, loader: Option<Seq<char>>) -> Seq<char> {
    let base = api() + "/project/"@ + project + "/version?"@;
    let with_version = match game_version {
        Some(v) => base + "game_versions="@ + percent_encoded(encode_utf8("[\""@ + v + "\"]"@)),
        None => base,
    };
    match loader {
        Some(l) => (if ends_with(with_version, "?"@) { with_version } else { with_version + "&"@ })
            + "loaders="@ + percent_encoded(encode_utf8("[\""@ + l + "\"]"@)),
        None => with_version,
    }
}

/// The URL listing a project's versions.
pub fn project_versions_url(project_id: &str, game_version: &Option<String>, loader: &Option<String>) -> (r: String)
    ensures
        r@ == versions_query(project_id@, crate::forge::opt_str(*game_version), crate::forge::opt_str(*loader)),
{
    let mut url = concat3("https://api.modrinth.com/v2", "/project/", project_id);
    push_all(&mut url, "/version?");
    match game_version {
        Some(v) => {
            let list = concat3("[\"", v.as_str(), "\"]");
            let e = url_encode(list.as_str());
            push_all(&mut url, "game_versions=");
            push_all(&mut url, e.as_str());
        },
        None => {},
    }
    match loader {
        Some(l) => {
            if !str_ends_with(url.as_str(), "?") {
                push_all(&mut url, "&");
            }
            let list = concat3("[\"", l.as_str(), "\"]");
            let e = url_encode(list.as_str());
            push_all(&mut url, "loaders=");
            push_all(&mut url, e.as_str());
        },
        None => {},
    }
    url
}

/// The mods folder of an instance.
pub fn mods_dir(instances_dir: &str, instance_id: &str) -> (r: String)
    ensures
        r@ == path_join(path_join(instances_dir@, instance_id@), "mods"@),
{
    let d = join_path(instances_dir, instance_id);
    join_path(d.as_str(), "mods")
}

/// The file names that are jars, in order.
pub open spec fn jars(names: Seq<String>) -> Seq<String>
    decreases names.len(),
{
    if names.len() == 0 {
        Seq::empty()
    } else {
        let rest = jars(names.drop_last());
        if ends_with(names.last()@, ".jar"@) {
            rest.push(names.last())
        } else {
            rest
        }
    }
}

/// The mods of an instance from the names in its mods folder: the jars,
/// sorted.
pub fn list_instance_mods(names: Vec<String>) -> (r: Vec<String>)
    ensures
        lex_sorted(views(r@)),
        r@.to_multiset() == jars(names@).to_multiset(),
{
    let mut found: Vec<String> = Vec::new();
    let mut i: usize = 0;
    while i < names.len()
        invariant
            i <= names.len(),
            found@ == jars(names@.take(i as int)),
        decreases names.len() - i,
    {
        assert(names@.take(i + 1).drop_last() =~= names@.take(i as int));
        if str_ends_with(names[i].as_str(), ".jar") {
            found.push(names[i].clone());
        }
        i = i + 1;
    }
    assert(names@.take(names.len() as int) =~= names@);
    sort_strings(found)
}


/// The query filter for one value: `<key>=` and the URL-encoded JSON list
/// `["<value>"]`.
pub open spec fn list_filter(key: Seq<char>, value: Seq<char>) -> Seq<char> {
    key + "="@ + percent_encoded(encode_utf8("[\""@ + value + "\"]"@))
}

/// Law: a project's version listing asks for the project's versions and
/// filters by each of game version and loader exactly when it is given,
/// each filter independent of the other: a given game version is the first
/// filter, a given loader the last, and with neither the query is bare.
pub proof fn lemma_versions_query_filters(project: Seq<char>, game_version: Option<Seq<char>>, loader: Option<Seq<char>>)
    ensures
        ({
            let base = api() + "/project/"@ + project + "/version?"@;
            let r = versions_query(project, game_version, loader);
            &&& starts_with(r, base)
            &&& game_version matches Some(v) ==> starts_with(r, base + list_filter("game_versions"@, v))
            &&& loader matches Some(l) ==> ends_with(r, list_filter("loaders"@, l))
            &&& game_version is None && loader is None ==> r == base
            &&& game_version is None ==> (loader matches Some(l) ==> r == base + list_filter("loaders"@, l))
            &&& loader is None ==> (game_version matches Some(v) ==> r == base + list_filter("game_versions"@, v))
        }),
{
    reveal_strlit("game_versions");
    reveal_strlit("game_versions=");
    reveal_strlit("loaders");
    reveal_strlit("loaders=");
    reveal_strlit("=");
    let base = api() + "/project/"@ + project + "/version?"@;
    let r = versions_query(project, game_version, loader);
    let with_version = match game_version {
        Some(v) => base + list_filter("game_versions"@, v),
        None => base,
    };
    assert(with_version =~= match game_version {
        Some(v) => base + "game_versions="@ + percent_encoded(encode_utf8("[\""@ + v + "\"]"@)),
        None => base,
    });
    assert(starts_with(with_version, base)) by {
        assert(with_version.take(base.len() as int) =~= base);
    }
    match loader {
        Some(l) => {
            let sep = if ends_with(with_version, "?"@) { with_version } else { with_version + "&"@ };
            let tail = list_filter("loaders"@, l);
            assert(tail =~= "loaders="@ + percent_encoded(encode_utf8("[\""@ + l + "\"]"@)));
            assert(r =~= sep + tail);
            assert(r.skip(r.len() - tail.len()) =~= tail);
            assert(r.take(with_version.len() as int) =~= with_version);
            assert(r.take(base.len() as int) =~= base);
            if game_version is None {
                assert(ends_with(base, "?"@)) by {
                    reveal_strlit("?");
                    reveal_strlit("/version?");
                    assert(base.skip(base.len() - 1) =~= "?"@);
                }
                assert(r =~= base + tail);
            }
        },
        None => {
            assert(r == with_version);
        },
    }
    if let Some(v) = game_version {
        assert(r.take(with_version.len() as int) =~= with_version);
    }
}

/// Law: URL-encoded text is plain ASCII.
pub proof fn lemma_percent_encoded_ascii(b: Seq<u8>)
    ensures
        forall|i: int| 0 <= i < percent_encoded(b).len() ==> (#[trigger] percent_encoded(b)[i] as u32) < 128,
    decreases b.len(),
{
    if b.len() > 0 {
        lemma_percent_encoded_ascii(b.drop_first());
        let rest = percent_encoded(b.drop_first());
        let x = b[0];
        let head: Seq<char> = if url_safe(x) {
            seq![x as char]
        } else {
            seq!['%', hex_upper(x / 16), hex_upper(x % 16)]
        };
        assert(percent_encoded(b) == head + rest);
        assert forall|i: int| 0 <= i < head.len() implies (#[trigger] head[i] as u32) < 128 by {
            if url_safe(x) {
                assert(head[i] == x as char);
            } else if i == 1 {
                assert(x / 16 < 16);
            } else if i == 2 {
                assert(x % 16 < 16);
            }
        }
        assert forall|i: int| 0 <= i < percent_encoded(b).len() implies (#[trigger] percent_encoded(b)[i] as u32) < 128 by {
            if i < head.len() {
                assert(percent_encoded(b)[i] == head[i]);
            } else {
                assert(percent_encoded(b)[i] == rest[i - head.len()]);
            }
        }
    }
}

} // verus!
