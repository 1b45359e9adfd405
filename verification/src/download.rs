//! Installing a version: where its files go, which downloads a profile asks
//! for, and the retry and progress rules that downloads follow.
use vstd::prelude::*;
use crate::digest::{hex_encode, sha1_digest, sha1_of};
use vstd::utf8::encode_utf8;
use crate::launch::{ascii_lowercase, lower_ascii};
use crate::manifest::{maven_path, maven_rel_path, rule_allows, rules_allow, Artifact, Library};
use crate::paths::{in_data_root, join_path, path_join, versions_dir};
use crate::sorting::{lex_lt, sort_strings};
use crate::text::{
    concat, concat3, contains, decimal, decimal_string, hex_lower, push_all, str_contains, str_eq,
    views,
};

verus! {

broadcast use vstd::seq_lib::group_to_multiset_ensures;

/// A step of an installation, as shown to the user.
#[derive(Debug, Clone)]
pub struct ProgressEvent {
    pub stage: String,
    pub current: u64,
    pub total: u64,
    pub message: String,
}

/// A progress event with the given fields.
pub fn progress_event(stage: &str, current: u64, total: u64, message: &str) -> (r: ProgressEvent)
    ensures
        r.stage@ == stage@,
        r.current == current,
        r.total == total,
        r.message@ == message@,
{
    ProgressEvent { stage: String::from_str(stage), current, total, message: String::from_str(message) }
}

// ---------------------------------------------------------------------------
// Where a version's files go
// ---------------------------------------------------------------------------

/// `versions/<id>/<id><ext>`.
pub open spec fn version_file(versions: Seq<char>, id: Seq<char>, ext: Seq<char>) -> Seq<char> {
    path_join(path_join(versions, id), id + ext)
}

fn version_file_path(versions_dir: &str, version_id: &str, ext: &str) -> (r: String)
    ensures
        r@ == version_file(versions_dir@, version_id@, ext@),
{
    let dir = join_path(versions_dir, version_id);
    let file = concat(version_id, ext);
    join_path(dir.as_str(), file.as_str())
}

/// The profile of a version; the version counts as installed when it exists.
pub fn version_json_path(versions_dir: &str, version_id: &str) -> (r: String)
    ensures
        r@ == version_file(versions_dir@, version_id@, ".json"@),
{
    version_file_path(versions_dir, version_id, ".json")
}

/// The client jar of a version.
pub fn client_jar_path(versions_dir: &str, version_id: &str) -> (r: String)
    ensures
        r@ == version_file(versions_dir@, version_id@, ".jar"@),
{
    version_file_path(versions_dir, version_id, ".jar")
}

/// The folder into which a version's native libraries are extracted.
pub fn natives_dir_for(version_id: &str) -> (r: String)
    ensures
        exists|v: Seq<char>|
            in_data_root(v, "versions"@) && #[trigger] path_join(path_join(v, version_id@), "natives"@) == r@,
{
    let versions = versions_dir();
    let dir = join_path(versions.as_str(), version_id);
    let r = join_path(dir.as_str(), "natives");
    assert(in_data_root(versions@, "versions"@) && path_join(path_join(versions@, version_id@), "natives"@) == r@);
    r
}

/// Where an asset index is stored: `assets/indexes/<id>.json`.
pub open spec fn asset_index_file(assets: Seq<char>, id: Seq<char>) -> Seq<char> {
    path_join(path_join(assets, "indexes"@), id + ".json"@)
}

/// Where the asset index with the given id is stored.
pub fn asset_index_path(assets_dir: &str, index_id: &str) -> (r: String)
    ensures
        r@ == asset_index_file(assets_dir@, index_id@),
{
    let dir = join_path(assets_dir, "indexes");
    let file = concat(index_id, ".json");
    join_path(dir.as_str(), file.as_str())
}

// ---------------------------------------------------------------------------
// Installed versions
// ---------------------------------------------------------------------------

/// The names of the entries that hold a version profile, in order.
pub open spec fn installed(entries: Seq<(String, bool)>) -> Seq<String>
    decreases entries.len(),
{
    if entries.len() == 0 {
        Seq::empty()
    } else {
        let rest = installed(entries.drop_last());
        if entries.last().1 {
            rest.push(entries.last().0)
        } else {
            rest
        }
    }
}

/// No element is lexicographically below a later one.
pub open spec fn lex_descending(s: Seq<Seq<char>>) -> bool {
    forall|i: int, j: int| 0 <= i < j < s.len() ==> !lex_lt(s[i], s[j])
}

/// The installed versions, newest name first. Each entry of the versions
/// folder is given with whether it is a folder holding its own profile; the
/// names of those that are, sorted in descending order, are the result.
pub fn list_installed_versions(entries: &Vec<(String, bool)>) -> (r: Vec<String>)
    ensures
        lex_descending(views(r@)),
        r@.to_multiset() == installed(entries@).to_multiset(),
{
    let mut found: Vec<String> = Vec::new();
    let mut i: usize = 0;
    while i < entries.len()
        invariant
            i <= entries.len(),
            found@ == installed(entries@.take(i as int)),
        decreases entries.len() - i,
    {
        assert(entries@.take(i + 1).drop_last() =~= entries@.take(i as int));
        if entries[i].1 {
            found.push(entries[i].0.clone());
        }
        i = i + 1;
    }
    assert(entries@.take(entries.len() as int) =~= entries@);
    let sorted = sort_strings(found);
    let n = sorted.len();
    let mut r: Vec<String> = Vec::new();
    let mut k: usize = n;
    while k > 0
        invariant
            k <= n == sorted.len(),
            r.len() == n - k,
            forall|t: int| 0 <= t < r.len() ==> r@[t] == sorted@[n - 1 - t],
            r@.to_multiset() == sorted@.subrange(k as int, n as int).to_multiset(),
        decreases k,
    {
        k = k - 1;
        let ghost before = r@;
        r.push(sorted[k].clone());
        assert(sorted@.subrange(k as int, n as int) =~= seq![sorted@[k as int]] + sorted@.subrange(k + 1, n as int));
        proof {
            vstd::seq_lib::lemma_multiset_commutative(seq![sorted@[k as int]], sorted@.subrange(k + 1, n as int));
            assert(seq![sorted@[k as int]] =~= Seq::<String>::empty().push(sorted@[k as int]));
        }
    }
    assert(sorted@.subrange(0, n as int) =~= sorted@);
    assert forall|i: int, j: int| 0 <= i < j < views(r@).len() implies !lex_lt(views(r@)[i], views(r@)[j]) by {
        assert(views(r@)[i] == views(sorted@)[n - 1 - i]);
        assert(views(r@)[j] == views(sorted@)[n - 1 - j]);
    }
    r
}

// ---------------------------------------------------------------------------
// Downloads
// ---------------------------------------------------------------------------

/// `2^min(k, 4)`: the backoff factor after the `k+1`-th attempt.
pub open spec fn backoff_factor(k: nat) -> nat {
    if k == 0 {
        1
    } else if k == 1 {
        2
    } else if k == 2 {
        4
    } else if k == 3 {
        8
    } else {
        16
    }
}

/// How long to wait after failed attempt number `attempt` (counted from 1):
/// `base` milliseconds, doubled per earlier attempt, at most sixteen-fold.
pub fn backoff_ms(base: u64, attempt: u32) -> (r: u64)
    requires
        1 <= attempt,
        base <= 1_000_000_000,
    ensures
        r == base * backoff_factor((attempt - 1) as nat),
{
    let k = attempt - 1;
    let shift: u64 = if k < 4 { k as u64 } else { 4 };
    let factor: u64 = if shift == 0 {
        1
    } else if shift == 1 {
        2
    } else if shift == 2 {
        4
    } else if shift == 3 {
        8
    } else {
        16
    };
    base * factor
}

/// How many times a file download is tried.
pub const FILE_ATTEMPTS: u32 = 5;

/// Milliseconds of the first wait between file download attempts.
pub const FILE_BACKOFF_MS: u64 = 300;

/// Whether the hexadecimal text of a digest equals the expected one,
/// ignoring ASCII case.
pub open spec fn hex_matches(digest: Seq<u8>, expected: Seq<char>) -> bool {
    lower_ascii(hex_lower(digest)) == lower_ascii(expected)
}

/// Whether `data` has the expected SHA-1, given as hexadecimal text in any
/// ASCII case.
pub fn sha1_matches(data: &[u8], expected: &str) -> (r: bool)
    ensures
        r == hex_matches(sha1_of(data@), expected@),
{
    let digest = sha1_digest(data);
    let hex = hex_encode(digest.as_slice());
    let a = ascii_lowercase(hex.as_str());
    let b = ascii_lowercase(expected);
    str_eq(a.as_str(), b.as_str())
}

/// The error of a failed attempt, or nothing when it succeeded: `fetched`
/// is the attempt's result, `true` when the file arrived with the expected
/// hash (or none was expected), `false` when its hash differed.
pub fn attempt_error(url: &str, fetched: Result<bool, String>) -> (r: Option<String>)
    ensures
        fetched == Ok::<bool, String>(true) ==> r is None,
        fetched == Ok::<bool, String>(false) ==> (r matches Some(e) && e@ == "SHA1 mismatch voor "@ + url@),
        fetched matches Err(e) ==> (r matches Some(m) && m@ == e@),
{
    match fetched {
        Ok(true) => None,
        Ok(false) => Some(concat("SHA1 mismatch voor ", url)),
        Err(e) => Some(e),
    }
}

/// The error after the last attempt failed: `<last error> (na <n> pogingen)`.
pub fn exhausted_error(last_err: &str, attempts: u32) -> (r: String)
    ensures
        r@ == last_err@ + " (na "@ + decimal(attempts as nat) + " pogingen)"@,
{
    let mut r = concat(last_err, " (na ");
    let n = decimal_string(attempts as u64);
    push_all(&mut r, n.as_str());
    push_all(&mut r, " pogingen)");
    r
}

// ---------------------------------------------------------------------------
// Assets
// ---------------------------------------------------------------------------

/// Strictly ascending in lexicographic order (so without repeats).
pub open spec fn lex_strictly_ascending(s: Seq<Seq<char>>) -> bool {
    forall|i: int, j: int| 0 <= i < j < s.len() ==> lex_lt(s[i], s[j])
}

/// The hashes of an asset index's objects, sorted and without repeats.
pub fn asset_hashes(hashes: Vec<String>) -> (r: Vec<String>)
    ensures
        lex_strictly_ascending(views(r@)),
        views(r@).to_set() == views(hashes@).to_set(),
{
    let sorted = sort_strings(hashes);
    proof {
        assert forall|x: Seq<char>| views(hashes@).contains(x) <==> views(sorted@).contains(x) by {
            if views(hashes@).contains(x) {
                let i = choose|i: int| 0 <= i < views(hashes@).len() && views(hashes@)[i] == x;
                assert(hashes@.to_multiset().count(hashes@[i]) > 0);
                assert(sorted@.contains(hashes@[i]));
                let j = choose|j: int| 0 <= j < sorted@.len() && sorted@[j] == hashes@[i];
                assert(views(sorted@)[j] == x);
            }
            if views(sorted@).contains(x) {
                let i = choose|i: int| 0 <= i < views(sorted@).len() && views(sorted@)[i] == x;
                assert(sorted@.to_multiset().count(sorted@[i]) > 0);
                assert(hashes@.contains(sorted@[i]));
                let j = choose|j: int| 0 <= j < hashes@.len() && hashes@[j] == sorted@[i];
                assert(views(hashes@)[j] == x);
            }
        }
    }
    let mut r: Vec<String> = Vec::new();
    let mut i: usize = 0;
    while i < sorted.len()
        invariant
            i <= sorted.len(),
            forall|a: int, b: int| 0 <= a < b < views(sorted@).len() ==> !lex_lt(views(sorted@)[b], views(sorted@)[a]),
            lex_strictly_ascending(views(r@)),
            r.len() > 0 ==> i > 0 && r@.last()@ == sorted@[i - 1]@,
            r.len() == 0 ==> i == 0,
            forall|x: Seq<char>| views(r@).contains(x) <==> views(sorted@.take(i as int)).contains(x),
        decreases sorted.len() - i,
    {
        let ghost vs = views(sorted@);
        let ghost vt = views(sorted@.take(i as int));
        let ghost vt1 = views(sorted@.take(i + 1));
        assert(vt1 =~= vt.push(sorted@[i as int]@));
        let dup = r.len() > 0 && str_eq(r[r.len() - 1].as_str(), sorted[i].as_str());
        if !dup {
            proof {
                if r.len() > 0 {
                    assert(views(r@)[views(r@).len() - 1] == vs[i - 1]);
                    crate::sorting::lemma_lex_total(vs[i - 1], vs[i as int]);
                    assert(!lex_lt(vs[i as int], vs[i - 1]));
                    assert(vs[i - 1] != vs[i as int]);
                    assert forall|a: int| 0 <= a < views(r@).len() implies lex_lt(views(r@)[a], vs[i as int]) by {
                        if a < views(r@).len() - 1 {
                            crate::sorting::lemma_lex_transitive(views(r@)[a], vs[i - 1], vs[i as int]);
                        }
                    }
                }
            }
            let ghost old_r = r@;
            r.push(sorted[i].clone());
            proof {
                crate::text::lemma_views_push(old_r, sorted@[i as int]);
                assert forall|x: Seq<char>| views(r@).contains(x) <==> vt1.contains(x) by {
                    if views(r@).contains(x) && x != sorted@[i as int]@ {
                        let a = choose|a: int| 0 <= a < views(r@).len() && views(r@)[a] == x;
                        assert(views(old_r)[a] == x);
                        assert(views(old_r).contains(x));
                        assert(vt.contains(x));
                        let b = choose|b: int| 0 <= b < vt.len() && vt[b] == x;
                        assert(vt1[b] == x);
                    }
                    if vt1.contains(x) && x != sorted@[i as int]@ {
                        let a = choose|a: int| 0 <= a < vt1.len() && vt1[a] == x;
                        assert(vt[a] == x);
                        assert(vt.contains(x));
                        assert(views(old_r).contains(x));
                        let b = choose|b: int| 0 <= b < views(old_r).len() && views(old_r)[b] == x;
                        assert(views(r@)[b] == x);
                    }
                    if x == sorted@[i as int]@ {
                        assert(views(r@)[views(r@).len() - 1] == x);
                        assert(vt1[vt1.len() - 1] == x);
                    }
                }
            }
        } else {
            proof {
                assert(views(r@)[views(r@).len() - 1] == sorted@[i as int]@);
                assert forall|x: Seq<char>| views(r@).contains(x) <==> vt1.contains(x) by {
                    if vt1.contains(x) && x != sorted@[i as int]@ {
                        let a = choose|a: int| 0 <= a < vt1.len() && vt1[a] == x;
                        assert(vt[a] == x);
                        assert(vt.contains(x));
                    }
                    if views(r@).contains(x) {
                        assert(vt.contains(x));
                        let b = choose|b: int| 0 <= b < vt.len() && vt[b] == x;
                        assert(vt1[b] == x);
                    }
                    if x == sorted@[i as int]@ {
                        assert(vt1[vt1.len() - 1] == x);
                    }
                }
            }
        }
        i = i + 1;
    }
    assert(sorted@.take(sorted.len() as int) =~= sorted@);
    r
}

/// The folder prefix of an asset object: the text of the hash's first two
/// bytes.
pub open spec fn asset_prefix(hash: Seq<char>) -> Seq<char> {
    vstd::utf8::decode_utf8(encode_utf8(hash).subrange(0, 2))
}

/// The prefix folder and download URL of an asset object with the given
/// hash: `assets/objects/<prefix>/<hash>` and
/// `https://resources.download.minecraft.net/<prefix>/<hash>`.
pub open spec fn asset_object(assets: Seq<char>, hash: Seq<char>) -> (Seq<char>, Seq<char>) {
    let prefix = asset_prefix(hash);
    (
        path_join(path_join(path_join(assets, "objects"@), prefix), hash),
        "https://resources.download.minecraft.net/"@ + prefix + "/"@ + hash,
    )
}

/// Where an asset object is stored and where it is downloaded from. The
/// hash is at least two bytes long and its second byte ends a character.
pub fn asset_download(assets_dir: &str, hash: &str) -> (r: (String, String))
    requires
        encode_utf8(hash@).len() >= 2,
        vstd::utf8::is_char_boundary(encode_utf8(hash@), 2),
    ensures
        (r.0@, r.1@) == asset_object(assets_dir@, hash@),
{
    let (p, _rest) = hash.split_at(2);
    proof {
        vstd::utf8::encode_utf8_decode_utf8(p@);
        assert(encode_utf8(p@) =~= encode_utf8(hash@).subrange(0, 2));
    }
    let prefix = String::from_str(p);
    let objects = join_path(assets_dir, "objects");
    let dir = join_path(objects.as_str(), prefix.as_str());
    let path = join_path(dir.as_str(), hash);
    let mut url = concat3("https://resources.download.minecraft.net/", prefix.as_str(), "/");
    push_all(&mut url, hash);
    (path, url)
}

/// Progress is reported after every twentieth asset and after the last.
pub open spec fn asset_progress_due(current: u64, total: u64) -> bool {
    current % 20 == 0 || current == total
}

/// The progress event after `current` of `total` assets are done, if one is
/// due: stage `assets`, message `Assets <current>/<total>`.
pub fn asset_progress(current: u64, total: u64) -> (r: Option<ProgressEvent>)
    ensures
        r is Some <==> asset_progress_due(current, total),
        r matches Some(e) ==> e.stage@ == "assets"@ && e.current == current && e.total == total
            && e.message@ == "Assets "@ + decimal(current as nat) + "/"@ + decimal(total as nat),
{
    if current % 20 == 0 || current == total {
        let mut m = String::from_str("Assets ");
        let c = decimal_string(current);
        push_all(&mut m, c.as_str());
        push_all(&mut m, "/");
        let t = decimal_string(total);
        push_all(&mut m, t.as_str());
        proof {
            reveal_strlit("Assets ");
        }
        Some(progress_event("assets", current, total, m.as_str()))
    } else {
        None
    }
}

// ---------------------------------------------------------------------------
// Libraries
// ---------------------------------------------------------------------------

/// A file to fetch: from `url` to `dest`, checked against `sha1` when
/// given; a failure of an optional one is ignored.
#[derive(Debug, Clone)]
pub struct DownloadJob {
    pub url: String,
    pub dest: String,
    pub sha1: Option<String>,
    pub required: bool,
}

/// A download job as plain values.
pub open spec fn job_view(j: DownloadJob) -> (Seq<char>, Seq<char>, Option<Seq<char>>, bool) {
    (j.url@, j.dest@, match j.sha1 {
        Some(s) => Some(s@),
        None => None,
    }, j.required)
}

/// A classifier artifact is fetched on a Mac when its key mentions
/// `natives-osx` or `natives-macos`, and on an ARM64 Mac also when it
/// mentions `arm64`.
pub open spec fn download_classifier(key: Seq<char>, arm64: bool) -> bool {
    contains(key, "natives-osx"@) || contains(key, "natives-macos"@) || (arm64 && contains(key, "arm64"@))
}

/// The job for an explicit artifact.
pub open spec fn artifact_job(a: Artifact, libs: Seq<char>) -> (Seq<char>, Seq<char>, Option<Seq<char>>, bool) {
    (a.url@, path_join(libs, a.path@), Some(a.sha1@), true)
}

/// The jobs for the wanted classifier artifacts, in order.
pub open spec fn classifier_jobs(c: Seq<(String, Artifact)>, libs: Seq<char>, arm64: bool) -> Seq<(Seq<char>, Seq<char>, Option<Seq<char>>, bool)>
    decreases c.len(),
{
    if c.len() == 0 {
        Seq::empty()
    } else {
        let rest = classifier_jobs(c.drop_last(), libs, arm64);
        if download_classifier(c.last().0@, arm64) {
            rest.push(artifact_job(c.last().1, libs))
        } else {
            rest
        }
    }
}

/// The files of a library: its explicit artifact and wanted classifier
/// artifacts; without explicit downloads, its Maven path below its own
/// repository, or (optionally) below Mojang's library server.
pub open spec fn library_jobs(lib: Library, libs: Seq<char>, arm64: bool) -> Seq<(Seq<char>, Seq<char>, Option<Seq<char>>, bool)> {
    let rel = maven_rel_path(lib.name@);
    match lib.downloads {
        Some(d) => (match d.artifact {
            Some(a) => seq![artifact_job(a, libs)],
            None => Seq::empty(),
        }) + classifier_jobs(d.classifiers@, libs, arm64),
        None => match lib.url {
            Some(base) => seq![(base@ + rel, path_join(libs, rel), None, true)],
            None => seq![("https://libraries.minecraft.net/"@ + rel, path_join(libs, rel), None, false)],
        },
    }
}

fn artifact_download(a: &Artifact, libraries_dir: &str) -> (r: DownloadJob)
    ensures
        job_view(r) == artifact_job(*a, libraries_dir@),
{
    DownloadJob {
        url: a.url.clone(),
        dest: join_path(libraries_dir, a.path.as_str()),
        sha1: Some(a.sha1.clone()),
        required: true,
    }
}

/// The downloads of one library, in order.
pub fn library_downloads(lib: &Library, libraries_dir: &str, arm64: bool) -> (r: Vec<DownloadJob>)
    ensures
        r@.map_values(|j: DownloadJob| job_view(j)) == library_jobs(*lib, libraries_dir@, arm64),
{
    let mut r: Vec<DownloadJob> = Vec::new();
    match &lib.downloads {
        Some(d) => {
            match &d.artifact {
                Some(a) => {
                    r.push(artifact_download(a, libraries_dir));
                },
                None => {},
            }
            let ghost head = r@.map_values(|j: DownloadJob| job_view(j));
            let mut i: usize = 0;
            while i < d.classifiers.len()
                invariant
                    i <= d.classifiers.len(),
                    r@.map_values(|j: DownloadJob| job_view(j)) == head + classifier_jobs(d.classifiers@.take(i as int), libraries_dir@, arm64),
                decreases d.classifiers.len() - i,
            {
                assert(d.classifiers@.take(i + 1).drop_last() =~= d.classifiers@.take(i as int));
                let key = d.classifiers[i].0.as_str();
                let wanted = str_contains(key, "natives-osx") || str_contains(key, "natives-macos")
                    || (arm64 && str_contains(key, "arm64"));
                if wanted {
                    let ghost before = r@;
                    r.push(artifact_download(&d.classifiers[i].1, libraries_dir));
                    assert(r@.map_values(|j: DownloadJob| job_view(j)) =~= before.map_values(|j: DownloadJob| job_view(j)).push(job_view(r@.last())));
                }
                i = i + 1;
                assert(r@.map_values(|j: DownloadJob| job_view(j)) =~= head + classifier_jobs(d.classifiers@.take(i as int), libraries_dir@, arm64));
            }
            assert(d.classifiers@.take(d.classifiers.len() as int) =~= d.classifiers@);
        },
        None => {
            let rel = maven_path(lib.name.as_str());
            let dest = join_path(libraries_dir, rel.as_str());
            match &lib.url {
                Some(base) => {
                    r.push(DownloadJob { url: concat(base.as_str(), rel.as_str()), dest, sha1: None, required: true });
                },
                None => {
                    proof {
                        reveal_strlit("https://libraries.minecraft.net/");
                    }
                    r.push(DownloadJob {
                        url: concat("https://libraries.minecraft.net/", rel.as_str()),
                        dest,
                        sha1: None,
                        required: false,
                    });
                },
            }
        },
    }
    assert(r@.map_values(|j: DownloadJob| job_view(j)) =~= library_jobs(*lib, libraries_dir@, arm64));
    r
}

/// The positions of the libraries whose rules allow them on `os`.
pub open spec fn allowed_positions(libs: Seq<Library>, os: Seq<char>) -> Seq<usize>
    decreases libs.len(),
{
    if libs.len() == 0 {
        Seq::empty()
    } else {
        let rest = allowed_positions(libs.drop_last(), os);
        if rules_allow(libs.last().rules@, os, Seq::empty()) {
            rest.push((libs.len() - 1) as usize)
        } else {
            rest
        }
    }
}

/// The libraries a version installs on `os`, by position: those whose rules
/// allow them, in profile order.
pub fn allowed_libraries(libs: &Vec<Library>, os: &str) -> (r: Vec<usize>)
    ensures
        r@ == allowed_positions(libs@, os@),
{
    let mut r: Vec<usize> = Vec::new();
    let mut i: usize = 0;
    while i < libs.len()
        invariant
            i <= libs.len(),
            r@ == allowed_positions(libs@.take(i as int), os@),
        decreases libs.len() - i,
    {
        assert(libs@.take(i + 1).drop_last() =~= libs@.take(i as int));
        if rule_allows(&libs[i].rules, os) {
            r.push(i);
        }
        i = i + 1;
    }
    assert(libs@.take(libs.len() as int) =~= libs@);
    r
}


/// Law: waits between attempts never shrink from one attempt to the next,
/// and never exceed sixteen times the first.
pub proof fn lemma_backoff_grows(base: nat, a: nat, b: nat)
    requires
        a <= b,
    ensures
        base * backoff_factor(a) <= base * backoff_factor(b),
        base * backoff_factor(b) <= 16 * base,
{
    assert(backoff_factor(a) <= backoff_factor(b));
    assert(backoff_factor(b) <= 16);
    vstd::arithmetic::mul::lemma_mul_inequality(backoff_factor(a) as int, backoff_factor(b) as int, base as int);
    vstd::arithmetic::mul::lemma_mul_inequality(backoff_factor(b) as int, 16, base as int);
    vstd::arithmetic::mul::lemma_mul_is_commutative(base as int, backoff_factor(a) as int);
    vstd::arithmetic::mul::lemma_mul_is_commutative(base as int, backoff_factor(b) as int);
    vstd::arithmetic::mul::lemma_mul_is_commutative(base as int, 16);
}

} // verus!
