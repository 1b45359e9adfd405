//! Forge and NeoForge installers: the Maven files they carry, the data
//! table their processors use, and how processor arguments are resolved.
use vstd::prelude::*;
use crate::download::{progress_event, version_file, DownloadJob, ProgressEvent};
use crate::manifest::{maven_path, maven_rel_path};
use crate::paths::{assets_dir, in_data_root, join_path, path_join};
use crate::text::{
    chars_of, concat, concat3, contains, decimal, decimal_string, ends_with, find, join, lines,
    lines_of, push_all, replace_all, replace_str, starts_with, str_contains, str_ends_with, str_eq,
    str_starts_with, string_of_range, trim, trim_str, views,
};

verus! {

// ---------------------------------------------------------------------------
// Archive entries
// ---------------------------------------------------------------------------

/// `str::trim_start_matches(p)` for a non-empty `p`: every leading copy of
/// `p` removed.
pub open spec fn strip_all(s: Seq<char>, p: Seq<char>) -> Seq<char>
    decreases s.len(),
{
    if p.len() > 0 && starts_with(s, p) {
        strip_all(s.skip(p.len() as int), p)
    } else {
        s
    }
}

/// The path below `prefix` at which an archive entry is extracted: entries
/// outside `prefix`, folders (names ending in `/`) and entries with nothing
/// left after the prefix are skipped.
pub open spec fn entry_below_spec(name: Seq<char>, prefix: Seq<char>) -> Option<Seq<char>> {
    if starts_with(name, prefix) && !ends_with(name, "/"@) && strip_all(name, prefix).len() > 0 {
        Some(strip_all(name, prefix))
    } else {
        None
    }
}

/// Where an archive entry goes below `prefix`, if it is extracted.
pub fn entry_below(name: &str, prefix: &str) -> (r: Option<String>)
    requires
        prefix@.len() > 0,
    ensures
        opt_str(r) == entry_below_spec(name@, prefix@),
{
    if !str_starts_with(name, prefix) || str_ends_with(name, "/") {
        return None;
    }
    let v = chars_of(name);
    let p = chars_of(prefix);
    let mut i: usize = 0;
    assert(v@.skip(0) =~= v@);
    while p.len() <= v.len() - i && crate::text::matches_at(&v, &p, i)
        invariant
            p@ == prefix@,
            p@.len() > 0,
            i <= v.len(),
            strip_all(name@, prefix@) == strip_all(v@.skip(i as int), prefix@),
            v@ == name@,
        decreases v.len() - i,
    {
        assert(v@.skip(i as int).take(p.len() as int) =~= v@.subrange(i as int, i + p.len()));
        assert(v@.skip(i as int).skip(p.len() as int) =~= v@.skip(i + p.len()));
        i = i + p.len();
    }
    proof {
        if i + p.len() <= v.len() {
            assert(v@.skip(i as int).take(p.len() as int) =~= v@.subrange(i as int, i + p.len()));
        }
    }
    if i == v.len() {
        assert(v@.skip(i as int).len() == 0);
        return None;
    }
    let r = string_of_range(&v, i, v.len());
    assert(v@.subrange(i as int, v.len() as int) =~= v@.skip(i as int));
    Some(r)
}

/// The characters of an optional string.
pub open spec fn opt_str(o: Option<String>) -> Option<Seq<char>> {
    match o {
        Some(s) => Some(s@),
        None => None,
    }
}

/// Where an installer's embedded Maven file goes below the libraries folder.
pub fn maven_entry_path(name: &str) -> (r: Option<String>)
    ensures
        opt_str(r) == entry_below_spec(name@, "maven/"@),
{
    proof {
        reveal_strlit("maven/");
    }
    entry_below(name, "maven/")
}

// ---------------------------------------------------------------------------
// Libraries referenced by processors
// ---------------------------------------------------------------------------

/// The file of a Maven coordinate below the libraries folder.
pub fn library_path_for(libraries_dir: &str, coord: &str) -> (r: String)
    ensures
        r@ == path_join(libraries_dir@, maven_rel_path(coord@)),
{
    let rel = maven_path(coord);
    join_path(libraries_dir, rel.as_str())
}

/// The error when a library a processor needs is not on disk.
pub fn missing_library_message(coord: &str, path: &str) -> (r: String)
    ensures
        r@ == "Missing library for processor: "@ + coord@ + " ("@ + path@ + ")"@,
{
    let mut r = concat3("Missing library for processor: ", coord, " (");
    push_all(&mut r, path);
    push_all(&mut r, ")");
    r
}

/// A data value or argument after resolution: text, or the file of a
/// library, which must then exist.
#[derive(Debug, Clone)]
pub enum Resolved {
    Text(String),
    Library { coord: String, path: String },
}

/// A resolution as plain values: whether it succeeded, its text (or the
/// error), and the library file it relies on.
pub open spec fn resolution(r: Result<Resolved, String>) -> (bool, Seq<char>, Option<(Seq<char>, Seq<char>)>) {
    match r {
        Ok(Resolved::Text(t)) => (true, t@, None),
        Ok(Resolved::Library { coord, path }) => (true, path@, Some((coord@, path@))),
        Err(e) => (false, e@, None),
    }
}

/// `s` starts with `open` and ends with `close` (so it has two characters
/// at least when they differ).
pub open spec fn wrapped(s: Seq<char>, open: char, close: char) -> bool {
    s.len() >= 2 && s[0] == open && s.last() == close
}

/// What lies between the first and last character.
pub open spec fn inner(s: Seq<char>) -> Seq<char> {
    s.subrange(1, s.len() - 1)
}

/// A library reference `[coord]` becomes the library's file.
pub open spec fn library_resolution(coord: Seq<char>, libs: Seq<char>) -> (bool, Seq<char>, Option<(Seq<char>, Seq<char>)>) {
    let path = path_join(libs, maven_rel_path(coord));
    (true, path, Some((coord, path)))
}

/// An install profile's data value: `[coord]` is a library file, `'text'`
/// is the quoted text, anything else is kept.
pub open spec fn data_value(raw: Seq<char>, libs: Seq<char>) -> (bool, Seq<char>, Option<(Seq<char>, Seq<char>)>) {
    if wrapped(raw, '[', ']') {
        library_resolution(inner(raw), libs)
    } else if wrapped(raw, '\'', '\'') {
        (true, inner(raw), None)
    } else {
        (true, raw, None)
    }
}

fn library_resolved(coord: String, libraries_dir: &str) -> (r: Result<Resolved, String>)
    ensures
        resolution(r) == library_resolution(coord@, libraries_dir@),
{
    let path = library_path_for(libraries_dir, coord.as_str());
    Ok(Resolved::Library { coord, path })
}

/// Resolves an install profile's data value.
pub fn resolve_data_value(raw: &str, libraries_dir: &str) -> (r: Result<Resolved, String>)
    ensures
        resolution(r) == data_value(raw@, libraries_dir@),
{
    let v = chars_of(raw);
    let n = v.len();
    if n >= 2 && v[0] == '[' && v[n - 1] == ']' {
        let coord = string_of_range(&v, 1, n - 1);
        return library_resolved(coord, libraries_dir);
    }
    if n >= 2 && v[0] == '\'' && v[n - 1] == '\'' {
        return Ok(Resolved::Text(string_of_range(&v, 1, n - 1)));
    }
    Ok(Resolved::Text(String::from_str(raw)))
}

/// The data table as plain pairs.
pub open spec fn table(d: Seq<(String, String)>) -> Seq<(Seq<char>, Seq<char>)> {
    d.map_values(|p: (String, String)| (p.0@, p.1@))
}

/// The value of the first entry with the given key.
pub open spec fn lookup(d: Seq<(Seq<char>, Seq<char>)>, key: Seq<char>) -> Option<Seq<char>>
    decreases d.len(),
{
    if d.len() == 0 {
        None
    } else if d[0].0 == key {
        Some(d[0].1)
    } else {
        lookup(d.drop_first(), key)
    }
}

/// Every `{key}` placeholder replaced by its value, entry by entry.
pub open spec fn substituted(s: Seq<char>, d: Seq<(Seq<char>, Seq<char>)>) -> Seq<char>
    decreases d.len(),
{
    if d.len() == 0 {
        s
    } else {
        replace_all(substituted(s, d.drop_last()), seq!['{'] + d.last().0 + seq!['}'], d.last().1)
    }
}

/// A processor argument or data value with placeholders filled in: then a
/// library reference `[coord]` is the library's file; a remaining single
/// `{key}` is the key's value, and an error when there is none.
pub open spec fn token_value(token: Seq<char>, d: Seq<(Seq<char>, Seq<char>)>, libs: Seq<char>) -> (bool, Seq<char>, Option<(Seq<char>, Seq<char>)>) {
    let s = substituted(token, d);
    if wrapped(s, '[', ']') {
        library_resolution(inner(s), libs)
    } else if wrapped(s, '{', '}') && !contains(inner(s), "{"@) {
        match lookup(d, inner(s)) {
            Some(v) => (true, v, None),
            None => (false, "Unknown Forge data key: "@ + inner(s), None),
        }
    } else {
        (true, s, None)
    }
}

/// The value of a key in the data table.
pub fn data_lookup(data: &Vec<(String, String)>, key: &str) -> (r: Option<String>)
    ensures
        opt_str(r) == lookup(table(data@), key@),
{
    let mut i: usize = 0;
    assert(table(data@).skip(0) =~= table(data@));
    while i < data.len()
        invariant
            i <= data.len(),
            lookup(table(data@), key@) == lookup(table(data@).skip(i as int), key@),
        decreases data.len() - i,
    {
        assert(table(data@).skip(i as int).drop_first() =~= table(data@).skip(i + 1));
        if str_eq(data[i].0.as_str(), key) {
            return Some(data[i].1.clone());
        }
        i = i + 1;
    }
    None
}

/// Resolves a processor argument (or data value) against the data table.
pub fn resolve_token(token: &str, data: &Vec<(String, String)>, libraries_dir: &str) -> (r: Result<Resolved, String>)
    ensures
        resolution(r) == token_value(token@, table(data@), libraries_dir@),
{
    let mut out = String::from_str(token);
    let mut i: usize = 0;
    while i < data.len()
        invariant
            i <= data.len(),
            out@ == substituted(token@, table(data@).take(i as int)),
        decreases data.len() - i,
    {
        assert(table(data@).take(i + 1).drop_last() =~= table(data@).take(i as int));
        let needle = concat3("{", data[i].0.as_str(), "}");
        proof {
            reveal_strlit("{");
            reveal_strlit("}");
            assert(needle@ =~= seq!['{'] + data@[i as int].0@ + seq!['}']);
        }
        out = replace_str(out.as_str(), needle.as_str(), data[i].1.as_str());
        i = i + 1;
    }
    assert(table(data@).take(data.len() as int) =~= table(data@));
    let v = chars_of(out.as_str());
    let n = v.len();
    if n >= 2 && v[0] == '[' && v[n - 1] == ']' {
        let coord = string_of_range(&v, 1, n - 1);
        return library_resolved(coord, libraries_dir);
    }
    if n >= 2 && v[0] == '{' && v[n - 1] == '}' {
        let key = string_of_range(&v, 1, n - 1);
        if !str_contains(key.as_str(), "{") {
            match data_lookup(data, key.as_str()) {
                Some(val) => {
                    return Ok(Resolved::Text(val));
                },
                None => {
                    return Err(concat("Unknown Forge data key: ", key.as_str()));
                },
            }
        }
    }
    Ok(Resolved::Text(out))
}

// ---------------------------------------------------------------------------
// The data table
// ---------------------------------------------------------------------------

/// `HashMap::insert` on the table: the first entry with the key takes the
/// value, or a new entry is appended.
pub open spec fn put(d: Seq<(Seq<char>, Seq<char>)>, key: Seq<char>, value: Seq<char>) -> Seq<(Seq<char>, Seq<char>)>
    decreases d.len(),
{
    if d.len() == 0 {
        seq![(key, value)]
    } else if d[0].0 == key {
        d.update(0, (key, value))
    } else {
        seq![d[0]] + put(d.drop_first(), key, value)
    }
}

proof fn lemma_put_at(d: Seq<(Seq<char>, Seq<char>)>, key: Seq<char>, value: Seq<char>, i: int)
    requires
        0 <= i <= d.len(),
        forall|j: int| 0 <= j < i ==> d[j].0 != key,
        i < d.len() ==> d[i].0 == key,
    ensures
        put(d, key, value) == if i < d.len() { d.update(i, (key, value)) } else { d.push((key, value)) },
    decreases d.len(),
{
    if d.len() == 0 {
        assert(seq![(key, value)] =~= d.push((key, value)));
    } else if d[0].0 == key {
    } else {
        lemma_put_at(d.drop_first(), key, value, i - 1);
        if i < d.len() {
            assert(seq![d[0]] + d.drop_first().update(i - 1, (key, value)) =~= d.update(i, (key, value)));
        } else {
            assert(seq![d[0]] + d.drop_first().push((key, value)) =~= d.push((key, value)));
        }
    }
}

/// Sets a key of the table (`HashMap::insert`).
pub fn data_insert(data: &mut Vec<(String, String)>, key: String, value: String)
    ensures
        table(final(data)@) == put(table(old(data)@), key@, value@),
{
    let mut i: usize = 0;
    while i < data.len() && !str_eq(data[i].0.as_str(), key.as_str())
        invariant
            i <= data.len(),
            forall|j: int| 0 <= j < i ==> table(data@)[j].0 != key@,
        decreases data.len() - i,
    {
        i = i + 1;
    }
    let ghost before = data@;
    proof {
        lemma_put_at(table(before), key@, value@, i as int);
    }
    if i < data.len() {
        data.set(i, (key, value));
        assert(table(data@) =~= table(before).update(i as int, (table(data@)[i as int].0, table(data@)[i as int].1)));
    } else {
        data.push((key, value));
        assert(table(data@) =~= table(before).push((table(data@)[i as int].0, table(data@)[i as int].1)));
    }
}

/// The table entries every processor run starts with: the side, the data
/// folder, the installer, the game's client jar, the libraries folder and
/// the game folder.
pub open spec fn base_table(root: Seq<char>, installer: Seq<char>, versions: Seq<char>, mc: Seq<char>, libs: Seq<char>, instances: Seq<char>) -> Seq<(Seq<char>, Seq<char>)> {
    seq![
        ("SIDE"@, "client"@),
        ("ROOT"@, root),
        ("INSTALLER"@, installer),
        ("MINECRAFT_JAR"@, version_file(versions, mc, ".jar"@)),
        ("LIBRARY_DIR"@, libs),
        ("GAME_DIR"@, path_join(instances, mc)),
    ]
}

/// The table entries every processor run starts with.
pub fn forge_base_data(root: &str, installer: &str, versions_dir: &str, mc_version: &str, libraries_dir: &str, instances_dir: &str) -> (r: Vec<(String, String)>)
    ensures
        table(r@) == base_table(root@, installer@, versions_dir@, mc_version@, libraries_dir@, instances_dir@),
{
    let mut r: Vec<(String, String)> = Vec::new();
    r.push((String::from_str("SIDE"), String::from_str("client")));
    r.push((String::from_str("ROOT"), String::from_str(root)));
    r.push((String::from_str("INSTALLER"), String::from_str(installer)));
    r.push((String::from_str("MINECRAFT_JAR"), crate::download::client_jar_path(versions_dir, mc_version)));
    r.push((String::from_str("LIBRARY_DIR"), String::from_str(libraries_dir)));
    r.push((String::from_str("GAME_DIR"), join_path(instances_dir, mc_version)));
    assert(table(r@) =~= base_table(root@, installer@, versions_dir@, mc_version@, libraries_dir@, instances_dir@));
    r
}

/// The library file a resolution relies on, if any.
pub open spec fn check_of(t: (bool, Seq<char>, Option<(Seq<char>, Seq<char>)>)) -> Seq<(Seq<char>, Seq<char>)> {
    match t.2 {
        Some(c) => seq![c],
        None => Seq::empty(),
    }
}

/// The install profile's data entries (key and raw value) added to the
/// table in order, with the library files they rely on.
pub open spec fn profile_pass(d: Seq<(Seq<char>, Seq<char>)>, entries: Seq<(Seq<char>, Seq<char>)>, libs: Seq<char>) -> (Seq<(Seq<char>, Seq<char>)>, Seq<(Seq<char>, Seq<char>)>)
    decreases entries.len(),
{
    if entries.len() == 0 {
        (d, Seq::empty())
    } else {
        let prev = profile_pass(d, entries.drop_last(), libs);
        let t = data_value(entries.last().1, libs);
        (put(prev.0, entries.last().0, t.1), prev.1 + check_of(t))
    }
}

/// One pass over `keys`: each key's value is resolved against the table as
/// it stands and stored back; the first error ends the pass.
pub open spec fn expand_pass(d: Seq<(Seq<char>, Seq<char>)>, keys: Seq<Seq<char>>, libs: Seq<char>) -> (Seq<(Seq<char>, Seq<char>)>, Seq<(Seq<char>, Seq<char>)>, Option<Seq<char>>)
    decreases keys.len(),
{
    if keys.len() == 0 {
        (d, Seq::empty(), None)
    } else {
        let prev = expand_pass(d, keys.drop_last(), libs);
        if prev.2 is Some {
            prev
        } else {
            match lookup(prev.0, keys.last()) {
                None => prev,
                Some(v) => {
                    let t = token_value(v, prev.0, libs);
                    if t.0 {
                        (put(prev.0, keys.last(), t.1), prev.1 + check_of(t), None)
                    } else {
                        (prev.0, prev.1, Some(t.1))
                    }
                },
            }
        }
    }
}

/// The keys of the table, in order.
pub open spec fn keys_of(d: Seq<(Seq<char>, Seq<char>)>) -> Seq<Seq<char>> {
    d.map_values(|p: (Seq<char>, Seq<char>)| p.0)
}

/// The complete table for a processor run: the base entries, the profile's
/// data, then three passes that fill placeholders inside the values; with
/// the library files relied on, and the first error.
pub open spec fn full_table(base: Seq<(Seq<char>, Seq<char>)>, entries: Seq<(Seq<char>, Seq<char>)>, libs: Seq<char>) -> (Seq<(Seq<char>, Seq<char>)>, Seq<(Seq<char>, Seq<char>)>, Option<Seq<char>>) {
    let p = profile_pass(base, entries, libs);
    let keys = keys_of(p.0);
    let e1 = expand_pass(p.0, keys, libs);
    if e1.2 is Some {
        (e1.0, p.1 + e1.1, e1.2)
    } else {
        let e2 = expand_pass(e1.0, keys, libs);
        if e2.2 is Some {
            (e2.0, p.1 + e1.1 + e2.1, e2.2)
        } else {
            let e3 = expand_pass(e2.0, keys, libs);
            (e3.0, p.1 + e1.1 + e2.1 + e3.1, e3.2)
        }
    }
}

/// A data table with the library files it relies on (each must exist,
/// checked in order) and the error that stopped its construction, if any.
#[derive(Debug, Clone)]
pub struct DataTable {
    pub data: Vec<(String, String)>,
    pub checks: Vec<(String, String)>,
    pub error: Option<String>,
}

fn record(checks: &mut Vec<(String, String)>, r: Result<Resolved, String>) -> (v: Option<String>)
    ensures
        table(final(checks)@) == table(old(checks)@) + check_of(resolution(r)),
        resolution(r).0 ==> (v matches Some(t) && t@ == resolution(r).1),
        !resolution(r).0 ==> v is None,
{
    match r {
        Ok(Resolved::Text(t)) => {
            assert(table(checks@) =~= table(checks@) + Seq::<(Seq<char>, Seq<char>)>::empty());
            Some(t)
        },
        Ok(Resolved::Library { coord, path }) => {
            let ghost before = checks@;
            let p2 = path.clone();
            checks.push((coord, path));
            assert(table(checks@) =~= table(before) + seq![(table(checks@).last().0, table(checks@).last().1)]);
            Some(p2)
        },
        Err(_) => {
            assert(table(checks@) =~= table(checks@) + Seq::<(Seq<char>, Seq<char>)>::empty());
            None
        },
    }
}

fn expand_once(data: &mut Vec<(String, String)>, keys: &Vec<String>, libraries_dir: &str, checks: &mut Vec<(String, String)>) -> (err: Option<String>)
    ensures
        ({
            let e = expand_pass(table(old(data)@), views(keys@), libraries_dir@);
            &&& table(final(data)@) == e.0
            &&& table(final(checks)@) == table(old(checks)@) + e.1
            &&& opt_str(err) == e.2
        }),
{
    let ghost d0 = table(data@);
    let ghost c0 = table(checks@);
    let mut i: usize = 0;
    assert(c0 + Seq::<(Seq<char>, Seq<char>)>::empty() =~= c0);
    while i < keys.len()
        invariant
            i <= keys.len(),
            d0 == table(old(data)@),
            c0 == table(old(checks)@),
            ({
                let e = expand_pass(d0, views(keys@).take(i as int), libraries_dir@);
                &&& e.2 is None
                &&& table(data@) == e.0
                &&& table(checks@) == c0 + e.1
            }),
        decreases keys.len() - i,
    {
        assert(views(keys@).take(i + 1).drop_last() =~= views(keys@).take(i as int));
        let ghost prev = expand_pass(d0, views(keys@).take(i as int), libraries_dir@);
        match data_lookup(data, keys[i].as_str()) {
            None => {},
            Some(v) => {
                let r = resolve_token(v.as_str(), data, libraries_dir);
                let ghost t = resolution(r);
                let err_text = match &r {
                    Err(e) => Some(e.clone()),
                    Ok(_) => None,
                };
                let ghost cbefore = table(checks@);
                let got = record(checks, r);
                match got {
                    Some(val) => {
                        data_insert(data, keys[i].clone(), val);
                        assert(c0 + prev.1 + check_of(t) =~= c0 + (prev.1 + check_of(t)));
                    },
                    None => {
                        assert(table(checks@) =~= cbefore);
                        assert(views(keys@).take(i + 1).last() == keys@[i as int]@);
                        assert(expand_pass(d0, views(keys@).take(i + 1), libraries_dir@) == (prev.0, prev.1, Some(t.1)));
                        assert(views(keys@).take(i + 1) =~= views(keys@).take(i as int).push(keys@[i as int]@));
                        assert(c0 + prev.1 + check_of(t) =~= c0 + prev.1);
                        proof {
                            let full = views(keys@);
                            assert forall|k: int| i + 1 <= k <= full.len() implies
                                #[trigger] expand_pass(d0, full.take(k), libraries_dir@) == expand_pass(d0, full.take(i + 1), libraries_dir@) by {
                                lemma_pass_stops(d0, full, libraries_dir@, i + 1, k);
                            }
                            assert(full.take(full.len() as int) =~= full);
                            assert(expand_pass(d0, full, libraries_dir@) == (prev.0, prev.1, Some(t.1)));
                        }
                        return err_text;
                    },
                }
            },
        }
        i = i + 1;
    }
    assert(views(keys@).take(keys.len() as int) =~= views(keys@));
    None
}

proof fn lemma_pass_stops(d: Seq<(Seq<char>, Seq<char>)>, keys: Seq<Seq<char>>, libs: Seq<char>, i: int, k: int)
    requires
        0 <= i <= k <= keys.len(),
        expand_pass(d, keys.take(i), libs).2 is Some,
    ensures
        expand_pass(d, keys.take(k), libs) == expand_pass(d, keys.take(i), libs),
    decreases k - i,
{
    if k > i {
        lemma_pass_stops(d, keys, libs, i, k - 1);
        assert(keys.take(k).drop_last() =~= keys.take(k - 1));
    }
}

/// The complete data table for a processor run, from the base entries and
/// the install profile's data entries (key and raw value).
pub fn forge_data_table(base: Vec<(String, String)>, profile: &Vec<(String, String)>, libraries_dir: &str) -> (r: DataTable)
    ensures
        ({
            let f = full_table(table(base@), table(profile@), libraries_dir@);
            &&& table(r.data@) == f.0
            &&& table(r.checks@) == f.1
            &&& opt_str(r.error) == f.2
        }),
{
    let mut data = base;
    let mut checks: Vec<(String, String)> = Vec::new();
    let ghost b = table(data@);
    let mut i: usize = 0;
    while i < profile.len()
        invariant
            i <= profile.len(),
            ({
                let p = profile_pass(b, table(profile@).take(i as int), libraries_dir@);
                &&& table(data@) == p.0
                &&& table(checks@) == p.1
            }),
        decreases profile.len() - i,
    {
        assert(table(profile@).take(i + 1).drop_last() =~= table(profile@).take(i as int));
        let r = resolve_data_value(profile[i].1.as_str(), libraries_dir);
        let got = record(&mut checks, r);
        match got {
            Some(val) => {
                data_insert(&mut data, profile[i].0.clone(), val);
            },
            None => {},
        }
        i = i + 1;
    }
    assert(table(profile@).take(profile.len() as int) =~= table(profile@));
    let mut keys: Vec<String> = Vec::new();
    let mut k: usize = 0;
    while k < data.len()
        invariant
            k <= data.len(),
            views(keys@) == keys_of(table(data@)).take(k as int),
        decreases data.len() - k,
    {
        let ghost before = keys@;
        let key = data[k].0.clone();
        keys.push(key);
        proof {
            crate::text::lemma_views_push(before, data@[k as int].0);
        }
        k = k + 1;
        assert(views(keys@) =~= keys_of(table(data@)).take(k as int));
    }
    assert(keys_of(table(data@)).take(data.len() as int) =~= keys_of(table(data@)));
    let ghost pc = table(checks@);
    let e1 = expand_once(&mut data, &keys, libraries_dir, &mut checks);
    if e1.is_some() {
        return DataTable { data, checks, error: e1 };
    }
    let e2 = expand_once(&mut data, &keys, libraries_dir, &mut checks);
    if e2.is_some() {
        return DataTable { data, checks, error: e2 };
    }
    let e3 = expand_once(&mut data, &keys, libraries_dir, &mut checks);
    DataTable { data, checks, error: e3 }
}

// ---------------------------------------------------------------------------
// Processors
// ---------------------------------------------------------------------------

/// A processor that lists sides runs only when `client` is among them.
pub open spec fn on_client(sides: Option<Seq<Seq<char>>>) -> bool {
    match sides {
        None => true,
        Some(s) => names_client(s),
    }
}

/// `client` is among the sides.
pub open spec fn names_client(s: Seq<Seq<char>>) -> bool {
    exists|i: int| 0 <= i < s.len() && s[i] == "client"@
}

/// The sides as plain values.
pub open spec fn sides_view(sides: Option<Vec<String>>) -> Option<Seq<Seq<char>>> {
    match sides {
        Some(v) => Some(views(v@)),
        None => None,
    }
}

/// Whether a processor runs when installing a client.
pub fn runs_on_client(sides: &Option<Vec<String>>) -> (r: bool)
    ensures
        r == on_client(sides_view(*sides)),
{
    match sides {
        None => true,
        Some(v) => {
            assert(sides_view(*sides) == Some(views(v@)));
            let mut i: usize = 0;
            while i < v.len()
                invariant
                    i <= v.len(),
                    sides_view(*sides) == Some(views(v@)),
                    forall|j: int| 0 <= j < i ==> views(v@)[j] != "client"@,
                decreases v.len() - i,
            {
                if str_eq(v[i].as_str(), "client") {
                    assert(views(v@)[i as int] == "client"@);
                    assert((i as int) < views(v@).len());
                    assert(names_client(views(v@)));
                    return true;
                }
                i = i + 1;
            }
            false
        },
    }
}

/// The file of a library below the libraries folder.
pub open spec fn lib_file(libs: Seq<char>, coord: Seq<char>) -> Seq<char> {
    path_join(libs, maven_rel_path(coord))
}

/// The library files of classpath coordinates.
pub open spec fn cp_files(coords: Seq<Seq<char>>, libs: Seq<char>) -> Seq<Seq<char>> {
    coords.map_values(|c: Seq<char>| lib_file(libs, c))
}

/// The existence checks for classpath coordinates.
pub open spec fn cp_checks(coords: Seq<Seq<char>>, libs: Seq<char>) -> Seq<(Seq<char>, Seq<char>)> {
    coords.map_values(|c: Seq<char>| (c, lib_file(libs, c)))
}

/// Processor arguments resolved in order, up to the first error: the
/// values, the library files relied on, and the error.
pub open spec fn args_pass(args: Seq<Seq<char>>, d: Seq<(Seq<char>, Seq<char>)>, libs: Seq<char>) -> (Seq<Seq<char>>, Seq<(Seq<char>, Seq<char>)>, Option<Seq<char>>)
    decreases args.len(),
{
    if args.len() == 0 {
        (Seq::empty(), Seq::empty(), None)
    } else {
        let prev = args_pass(args.drop_last(), d, libs);
        if prev.2 is Some {
            prev
        } else {
            let t = token_value(args.last(), d, libs);
            if t.0 {
                (prev.0.push(t.1), prev.1 + check_of(t), None)
            } else {
                (prev.0, prev.1, Some(t.1))
            }
        }
    }
}

/// How to run one processor: its jar, the library files that must exist
/// (the jar first, then its classpath, then those its arguments name), the
/// `:`-joined classpath, the arguments, and the error that stopped the
/// arguments' resolution, if any.
#[derive(Debug, Clone)]
pub struct ProcessorPlan {
    pub jar_path: String,
    pub checks: Vec<(String, String)>,
    pub classpath: String,
    pub args: Vec<String>,
    pub error: Option<String>,
}

proof fn lemma_args_pass_stops(args: Seq<Seq<char>>, d: Seq<(Seq<char>, Seq<char>)>, libs: Seq<char>, i: int, k: int)
    requires
        0 <= i <= k <= args.len(),
        args_pass(args.take(i), d, libs).2 is Some,
    ensures
        args_pass(args.take(k), d, libs) == args_pass(args.take(i), d, libs),
    decreases k - i,
{
    if k > i {
        lemma_args_pass_stops(args, d, libs, i, k - 1);
        assert(args.take(k).drop_last() =~= args.take(k - 1));
    }
}

/// Plans a processor from its jar coordinate, classpath coordinates and
/// raw arguments, against the data table; a processor without a jar is an
/// error.
pub fn plan_processor(jar: Option<String>, classpath: &Vec<String>, args: &Vec<String>, data: &Vec<(String, String)>, libraries_dir: &str) -> (r: Result<ProcessorPlan, String>)
    ensures
        jar is None ==> (r matches Err(e) && e@ == "processor missing jar"@),
        jar matches Some(j) ==> (r matches Ok(p) && ({
            let a = args_pass(views(args@), table(data@), libraries_dir@);
            let jf = lib_file(libraries_dir@, j@);
            &&& p.jar_path@ == jf
            &&& table(p.checks@) == seq![(j@, jf)] + cp_checks(views(classpath@), libraries_dir@) + a.1
            &&& p.classpath@ == join(seq![jf] + cp_files(views(classpath@), libraries_dir@), ":"@)
            &&& views(p.args@) == a.0
            &&& opt_str(p.error) == a.2
        })),
{
    let j = match jar {
        None => {
            return Err(String::from_str("processor missing jar"));
        },
        Some(j) => j,
    };
    let jar_path = library_path_for(libraries_dir, j.as_str());
    let mut checks: Vec<(String, String)> = Vec::new();
    checks.push((j.clone(), jar_path.clone()));
    let mut files: Vec<String> = Vec::new();
    files.push(jar_path.clone());
    let ghost c0 = table(checks@);
    let ghost f0 = views(files@);
    let ghost jf = lib_file(libraries_dir@, j@);
    assert(c0 =~= seq![(j@, jf)]);
    assert(f0 =~= seq![jf]);
    let mut i: usize = 0;
    while i < classpath.len()
        invariant
            i <= classpath.len(),
            jar == Some(j),
            jar_path@ == jf,
            jf == lib_file(libraries_dir@, j@),
            c0 == seq![(j@, jf)],
            f0 == seq![jf],
            table(checks@) == c0 + cp_checks(views(classpath@).take(i as int), libraries_dir@),
            views(files@) == f0 + cp_files(views(classpath@).take(i as int), libraries_dir@),
        decreases classpath.len() - i,
    {
        let p = library_path_for(libraries_dir, classpath[i].as_str());
        let ghost fb = files@;
        let ghost cb = table(checks@);
        assert(views(classpath@).take(i + 1) =~= views(classpath@).take(i as int).push(classpath@[i as int]@));
        assert(cp_checks(views(classpath@).take(i + 1), libraries_dir@) =~= cp_checks(views(classpath@).take(i as int), libraries_dir@).push((classpath@[i as int]@, p@)));
        assert(cp_files(views(classpath@).take(i + 1), libraries_dir@) =~= cp_files(views(classpath@).take(i as int), libraries_dir@).push(p@));
        checks.push((classpath[i].clone(), p.clone()));
        files.push(p);
        proof {
            crate::text::lemma_views_push(fb, files@.last());
        }
        i = i + 1;
        assert(table(checks@) =~= cb.push((classpath@[i - 1]@, p@)));
        assert(table(checks@) =~= c0 + cp_checks(views(classpath@).take(i as int), libraries_dir@));
        assert(views(files@) =~= f0 + cp_files(views(classpath@).take(i as int), libraries_dir@));
    }
    assert(views(classpath@).take(classpath.len() as int) =~= views(classpath@));
    let cp = crate::text::join_strs(&files, ":");
    proof {
        reveal_strlit(":");
    }
    let ghost c1 = table(checks@);
    let mut out: Vec<String> = Vec::new();
    let mut error: Option<String> = None;
    let mut k: usize = 0;
    assert(c1 + Seq::<(Seq<char>, Seq<char>)>::empty() =~= c1);
    while k < args.len()
        invariant
            k <= args.len(),
            error is None,
            jar == Some(j),
            jar_path@ == lib_file(libraries_dir@, j@),
            c1 == seq![(j@, lib_file(libraries_dir@, j@))] + cp_checks(views(classpath@), libraries_dir@),
            cp@ == join(seq![lib_file(libraries_dir@, j@)] + cp_files(views(classpath@), libraries_dir@), ":"@),
            ({
                let a = args_pass(views(args@), table(data@), libraries_dir@);
                let ak = args_pass(views(args@).take(k as int), table(data@), libraries_dir@);
                &&& ak.2 is None
                &&& views(out@) == ak.0
                &&& table(checks@) == c1 + ak.1
            }),
        decreases args.len() - k,
    {
        assert(views(args@).take(k + 1).drop_last() =~= views(args@).take(k as int));
        let ghost prev = args_pass(views(args@).take(k as int), table(data@), libraries_dir@);
        let r = resolve_token(args[k].as_str(), data, libraries_dir);
        let ghost t = resolution(r);
        let err_text = match &r {
            Err(e) => Some(e.clone()),
            Ok(_) => None,
        };
        let got = record(&mut checks, r);
        match got {
            Some(v) => {
                let ghost ob = out@;
                out.push(v);
                proof {
                    crate::text::lemma_views_push(ob, out@.last());
                    assert(c1 + prev.1 + check_of(t) =~= c1 + (prev.1 + check_of(t)));
                }
            },
            None => {
                proof {
                    assert(c1 + prev.1 + check_of(t) =~= c1 + prev.1);
                    let full = views(args@);
                    assert(full.take(k + 1).last() == args@[k as int]@);
                    assert(args_pass(full.take(k + 1), table(data@), libraries_dir@) == (prev.0, prev.1, Some(t.1)));
                    lemma_args_pass_stops(full, table(data@), libraries_dir@, k + 1, full.len() as int);
                    assert(full.take(full.len() as int) =~= full);
                }
                error = err_text;
                return Ok(ProcessorPlan { jar_path, checks, classpath: cp, args: out, error });
            },
        }
        k = k + 1;
    }
    assert(views(args@).take(args.len() as int) =~= views(args@));
    Ok(ProcessorPlan { jar_path, checks, classpath: cp, args: out, error })
}

/// The main class named by a jar manifest: the first line starting with
/// `Main-Class:`, the rest of it trimmed.
pub open spec fn main_class_of(ls: Seq<Seq<char>>) -> Option<Seq<char>>
    decreases ls.len(),
{
    if ls.len() == 0 {
        None
    } else if starts_with(ls[0], "Main-Class:"@) {
        Some(trim(ls[0].skip(11)))
    } else {
        main_class_of(ls.drop_first())
    }
}

/// The main class a processor jar's manifest names, if any.
pub fn main_class_in(manifest: &str) -> (r: Option<String>)
    ensures
        opt_str(r) == main_class_of(lines(manifest@)),
{
    proof {
        reveal_strlit("Main-Class:");
    }
    let ls = lines_of(manifest);
    let mut i: usize = 0;
    assert(views(ls@).skip(0) =~= views(ls@));
    while i < ls.len()
        invariant
            i <= ls.len(),
            views(ls@) == lines(manifest@),
            main_class_of(lines(manifest@)) == main_class_of(views(ls@).skip(i as int)),
        decreases ls.len() - i,
    {
        assert(views(ls@).skip(i as int).drop_first() =~= views(ls@).skip(i + 1));
        assert(views(ls@).skip(i as int)[0] == ls@[i as int]@);
        proof {
            reveal_strlit("Main-Class:");
        }
        if str_starts_with(ls[i].as_str(), "Main-Class:") {
            let v = chars_of(ls[i].as_str());
            let rest = string_of_range(&v, 11, v.len());
            assert(v@.subrange(11, v@.len() as int) =~= ls@[i as int]@.skip(11));
            return Some(trim_str(rest.as_str()));
        }
        i = i + 1;
    }
    None
}

/// The error for a processor jar whose manifest names no main class.
pub fn no_main_class_message(coord: &str) -> (r: String)
    ensures
        r@ == "No Main-Class in "@ + coord@,
{
    concat("No Main-Class in ", coord)
}

/// The error for a processor that exited unsuccessfully.
pub fn processor_failure_message(main_class: &str, stderr: &str, stdout: &str) -> (r: String)
    ensures
        r@ == "Forge processor failed ("@ + main_class@ + "):\n"@ + stderr@ + "\n"@ + stdout@,
{
    let mut r = concat3("Forge processor failed (", main_class, "):\n");
    push_all(&mut r, stderr);
    push_all(&mut r, "\n");
    push_all(&mut r, stdout);
    r
}

/// The progress event before processor `index` (from 0) of `total` runs.
pub fn processor_progress(index: u64, total: u64) -> (r: ProgressEvent)
    requires
        index < u64::MAX,
    ensures
        r.stage@ == "forge"@,
        r.current == index,
        r.total == total,
        r.message@ == "Forge processor "@ + decimal((index + 1) as nat) + "/"@ + decimal(total as nat),
{
    let mut m = String::from_str("Forge processor ");
    let a = decimal_string(index + 1);
    push_all(&mut m, a.as_str());
    push_all(&mut m, "/");
    let b = decimal_string(total);
    push_all(&mut m, b.as_str());
    proof {
        reveal_strlit("Forge processor ");
    }
    progress_event("forge", index, total, m.as_str())
}

// ---------------------------------------------------------------------------
// Libraries of installer profiles
// ---------------------------------------------------------------------------

/// A library entry of an installer's profile, as far as downloading reads
/// it: its name, its explicit artifact's path, URL and SHA-1 (empty text
/// when absent), and its repository.
#[derive(Debug, Clone)]
pub struct ProfileLibrary {
    pub name: Option<String>,
    pub artifact_path: String,
    pub artifact_url: String,
    pub artifact_sha1: Option<String>,
    pub url: Option<String>,
}

/// The download of an explicit artifact with both a path and a URL.
pub open spec fn explicit_job(lib: ProfileLibrary, libs: Seq<char>) -> Option<(Seq<char>, Seq<char>, Option<Seq<char>>, bool)> {
    if lib.artifact_url@.len() > 0 && lib.artifact_path@.len() > 0 {
        Some((lib.artifact_url@, path_join(libs, lib.artifact_path@), opt_str(lib.artifact_sha1), true))
    } else {
        None
    }
}

/// The download of a library by its Maven path below a repository.
pub open spec fn maven_job(name: Seq<char>, base: Seq<char>, libs: Seq<char>, required: bool) -> (Seq<char>, Seq<char>, Option<Seq<char>>, bool) {
    (base + maven_rel_path(name), path_join(libs, maven_rel_path(name)), None, required)
}

/// The repository of a library, or the given default.
pub open spec fn repo_or(lib: ProfileLibrary, default_base: Seq<char>) -> Seq<char> {
    match lib.url {
        Some(u) => u@,
        None => default_base,
    }
}

/// Law: a library without an explicit artifact is fetched below the
/// repository it names, and only a library that names none falls back to
/// the default repository: its Maven path is appended to that repository's
/// URL and, below the libraries directory, gives the file it is saved to.
pub proof fn lemma_library_repository(lib: ProfileLibrary, name: Seq<char>, default_base: Seq<char>, other_default: Seq<char>, libs: Seq<char>, required: bool)
    ensures
        lib.url matches Some(u) ==> maven_job(name, repo_or(lib, default_base), libs, required).0 == u@ + maven_rel_path(name),
        lib.url is None ==> maven_job(name, repo_or(lib, default_base), libs, required).0 == default_base + maven_rel_path(name),
        lib.url is Some ==> maven_job(name, repo_or(lib, default_base), libs, required) == maven_job(name, repo_or(lib, other_default), libs, required),
        maven_job(name, repo_or(lib, default_base), libs, required).1 == path_join(libs, maven_rel_path(name)),
        maven_job(name, repo_or(lib, default_base), libs, required).2 is None,
        maven_job(name, repo_or(lib, default_base), libs, required).3 == required,
{
}

fn explicit_download(lib: &ProfileLibrary, libraries_dir: &str) -> (r: Option<DownloadJob>)
    ensures
        match r {
            Some(j) => explicit_job(*lib, libraries_dir@) == Some(crate::download::job_view(j)),
            None => explicit_job(*lib, libraries_dir@) is None,
        },
{
    if lib.artifact_url.as_str().is_empty() || lib.artifact_path.as_str().is_empty() {
        return None;
    }
    let sha1 = match &lib.artifact_sha1 {
        Some(s) => Some(s.clone()),
        None => None,
    };
    Some(DownloadJob {
        url: lib.artifact_url.clone(),
        dest: join_path(libraries_dir, lib.artifact_path.as_str()),
        sha1,
        required: true,
    })
}

fn maven_download(name: &str, base: &str, libraries_dir: &str, required: bool) -> (r: DownloadJob)
    ensures
        crate::download::job_view(r) == maven_job(name@, base@, libraries_dir@, required),
{
    let rel = maven_path(name);
    DownloadJob { url: concat(base, rel.as_str()), dest: join_path(libraries_dir, rel.as_str()), sha1: None, required }
}

/// The download of a library of a Forge install profile: none without a
/// name; its explicit artifact; else its Maven path below its repository
/// (Forge's by default), whose failure is ignored.
pub fn profile_library_download(lib: &ProfileLibrary, libraries_dir: &str) -> (r: Option<DownloadJob>)
    ensures
        lib.name is None ==> r is None,
        lib.name matches Some(n) ==> (r matches Some(j) && crate::download::job_view(j) == match explicit_job(*lib, libraries_dir@) {
            Some(e) => e,
            None => maven_job(n@, repo_or(*lib, "https://maven.minecraftforge.net/"@), libraries_dir@, false),
        }),
{
    let name = match &lib.name {
        None => {
            return None;
        },
        Some(n) => n,
    };
    match explicit_download(lib, libraries_dir) {
        Some(j) => Some(j),
        None => {
            proof {
                reveal_strlit("https://maven.minecraftforge.net/");
            }
            let base = match &lib.url {
                Some(u) => u.clone(),
                None => String::from_str("https://maven.minecraftforge.net/"),
            };
            Some(maven_download(name.as_str(), base.as_str(), libraries_dir, false))
        },
    }
}

/// The download of a library of a Forge or NeoForge version profile: an
/// error without a name; its explicit artifact; else its Maven path below
/// its repository (`default_base` when it names none).
pub fn forge_library_download(lib: &ProfileLibrary, default_base: &str, libraries_dir: &str) -> (r: Result<DownloadJob, String>)
    ensures
        lib.name is None ==> (r matches Err(e) && e@ == "library missing name"@),
        lib.name matches Some(n) ==> (r matches Ok(j) && crate::download::job_view(j) == match explicit_job(*lib, libraries_dir@) {
            Some(e) => e,
            None => maven_job(n@, repo_or(*lib, default_base@), libraries_dir@, true),
        }),
{
    let name = match &lib.name {
        None => {
            return Err(String::from_str("library missing name"));
        },
        Some(n) => n,
    };
    match explicit_download(lib, libraries_dir) {
        Some(j) => Ok(j),
        None => {
            let base = match &lib.url {
                Some(u) => u.clone(),
                None => String::from_str(default_base),
            };
            Ok(maven_download(name.as_str(), base.as_str(), libraries_dir, true))
        },
    }
}

/// Where asset indexes and objects live.
pub fn assets_index_hint() -> (r: String)
    ensures
        in_data_root(r@, "assets"@),
{
    assets_dir()
}


/// Law: after a key is set in the data table, looking it up gives the new
/// value, and every other key keeps its value.
pub proof fn lemma_put_then_lookup(d: Seq<(Seq<char>, Seq<char>)>, key: Seq<char>, value: Seq<char>, other: Seq<char>)
    requires
        other != key,
    ensures
        lookup(put(d, key, value), key) == Some(value),
        lookup(put(d, key, value), other) == lookup(d, other),
    decreases d.len(),
{
    let p = put(d, key, value);
    if d.len() == 0 {
        assert(p.drop_first() =~= Seq::<(Seq<char>, Seq<char>)>::empty());
        assert(p[0] == (key, value));
        assert(lookup(p.drop_first(), other) is None);
    } else if d[0].0 == key {
        assert(p.drop_first() =~= d.drop_first());
        assert(p[0] == (key, value));
        assert(lookup(p, other) == lookup(d.drop_first(), other));
    } else {
        lemma_put_then_lookup(d.drop_first(), key, value, other);
        assert(p.drop_first() =~= put(d.drop_first(), key, value));
        assert(p[0] == d[0]);
    }
}

} // verus!
