//! Instances: per-game folders with their metadata, the running-process
//! table, and the ordering of the instance list.
use vstd::prelude::*;
use crate::paths::{copy_opt, opt_view, path_join, Settings};
use crate::sorting::{lex_lt, lemma_lex_irreflexive, lemma_lex_transitive, text_lt, Ranked};
use crate::text::{
    concat, concat3, contains, decimal, decimal_string, is_ascii_alnum, is_ascii_alphanumeric,
    lowercase, str_contains, str_eq, trim, trim_str, unicode_lowercase, views,
};

verus! {

/// Metadata stored with an instance.
#[derive(Debug, Clone)]
pub struct InstanceMeta {
    pub id: String,
    /// Mojang / loader profile id used to launch (may differ from the folder id).
    pub version_id: String,
    pub name: String,
    pub notes: String,
    pub game_version: Option<String>,
    pub loader: Option<String>,
    pub memory_mb: Option<u32>,
    pub jvm_args: Option<String>,
    pub java_path: Option<String>,
    pub last_played: Option<String>,
    pub play_count: u64,
    pub created_at: Option<String>,
}

/// An instance as listed to the user.
#[derive(Debug, Clone)]
pub struct InstanceInfo {
    pub id: String,
    pub version_id: String,
    pub name: String,
    pub notes: String,
    pub game_version: Option<String>,
    pub loader: Option<String>,
    pub memory_mb: Option<u32>,
    pub jvm_args: Option<String>,
    pub java_path: Option<String>,
    pub last_played: Option<String>,
    pub play_count: u64,
    pub created_at: Option<String>,
    pub mod_count: usize,
    pub running: bool,
}

/// The metadata file of an instance inside the instances directory.
pub fn meta_path(instances_dir: &str, id: &str) -> (r: String)
    ensures
        r@ == path_join(path_join(instances_dir@, id@), "cubera-instance.json"@),
{
    let dir = crate::paths::join_path(instances_dir, id);
    crate::paths::join_path(dir.as_str(), "cubera-instance.json")
}

/// The loader a profile id suggests, judged on its lowercase form:
/// fabric, quilt, neoforge, forge, else vanilla.
pub open spec fn loader_for(id: Seq<char>) -> Seq<char> {
    let lower = unicode_lowercase(id);
    if contains(lower, "fabric"@) {
        "fabric"@
    } else if contains(lower, "quilt"@) {
        "quilt"@
    } else if contains(lower, "neoforge"@) {
        "neoforge"@
    } else if contains(lower, "forge"@) {
        "forge"@
    } else {
        "vanilla"@
    }
}

/// The loader a profile id suggests.
pub fn infer_loader(id: &str) -> (r: Option<String>)
    ensures
        r matches Some(l) && l@ == loader_for(id@),
{
    let lower = lowercase(id);
    let l = lower.as_str();
    if str_contains(l, "fabric") {
        Some(String::from_str("fabric"))
    } else if str_contains(l, "quilt") {
        Some(String::from_str("quilt"))
    } else if str_contains(l, "neoforge") {
        Some(String::from_str("neoforge"))
    } else if str_contains(l, "forge") {
        Some(String::from_str("forge"))
    } else {
        Some(String::from_str("vanilla"))
    }
}

/// The matches of the pattern `(\d+\.\d+(?:\.\d+)?)` in a text, left to
/// right (nothing when the pattern fails to compile).
pub uninterp spec fn version_number_matches(text: Seq<char>) -> Option<Seq<Seq<char>>>;

/// The version-number matches in `text` (`regex::Regex::find_iter`).
#[verifier::external_body]
fn find_version_numbers(text: &str) -> (r: Option<Vec<String>>)
    ensures
        match r {
            Some(v) => version_number_matches(text@) == Some(views(v@)),
            None => version_number_matches(text@) is None,
        },
{
    match regex::Regex::new(r"(\d+\.\d+(?:\.\d+)?)") {
        Ok(re) => Some(re.find_iter(text).map(|m| m.as_str().to_string()).collect()),
        Err(_) => None,
    }
}

/// The game version picked from the version numbers in a profile id: none
/// if there are none, the last for fabric or quilt profiles, else the first.
pub open spec fn pick_game_version(id: Seq<char>, matches: Seq<Seq<char>>) -> Option<Seq<char>> {
    if matches.len() == 0 {
        None
    } else if contains(id, "fabric"@) || contains(id, "quilt"@) {
        Some(matches.last())
    } else {
        Some(matches[0])
    }
}

/// The game version picked from the given version-number matches.
pub fn game_version_from_matches(id: &str, matches: Vec<String>) -> (r: Option<String>)
    ensures
        opt_view(r) == pick_game_version(id@, views(matches@)),
{
    let n = matches.len();
    if n == 0 {
        return None;
    }
    if str_contains(id, "fabric") || str_contains(id, "quilt") {
        Some(matches[n - 1].clone())
    } else {
        Some(matches[0].clone())
    }
}

/// The game version a profile id suggests.
pub fn infer_game_version(id: &str) -> (r: Option<String>)
    ensures
        match version_number_matches(id@) {
            Some(m) => opt_view(r) == pick_game_version(id@, m),
            None => r is None,
        },
{
    match find_version_numbers(id) {
        Some(m) => game_version_from_matches(id, m),
        None => None,
    }
}

/// The game version inferred from a profile id.
pub open spec fn inferred_game_version(version_id: Seq<char>, g: Option<String>) -> bool {
    match version_number_matches(version_id) {
        Some(m) => opt_view(g) == pick_game_version(version_id, m),
        None => g is None,
    }
}

/// `r` is the stored metadata `m` completed for folder `id` and profile
/// `version_id`: an empty name becomes the folder id, an empty profile id
/// becomes `version_id`, a missing game version or loader is inferred from
/// the profile id, and everything else is kept.
pub open spec fn completed(m: InstanceMeta, r: InstanceMeta, id: Seq<char>, version_id: Seq<char>) -> bool {
    &&& r.id == m.id
    &&& if m.name@.len() == 0 { r.name@ == id } else { r.name == m.name }
    &&& if m.version_id@.len() == 0 { r.version_id@ == version_id } else { r.version_id == m.version_id }
    &&& if m.game_version is Some { r.game_version == m.game_version } else { inferred_game_version(r.version_id@, r.game_version) }
    &&& if m.loader is Some { r.loader == m.loader } else { r.loader matches Some(l) && l@ == loader_for(r.version_id@) }
    &&& r.notes == m.notes
    &&& r.memory_mb == m.memory_mb
    &&& r.jvm_args == m.jvm_args
    &&& r.java_path == m.java_path
    &&& r.last_played == m.last_played
    &&& r.play_count == m.play_count
    &&& r.created_at == m.created_at
}

/// `r` is the metadata of a new instance in folder `id` with profile
/// `version_id`: named after the folder, no notes, game version and loader
/// inferred from the profile id, no own launch settings, never played.
pub open spec fn fresh(r: InstanceMeta, id: Seq<char>, version_id: Seq<char>) -> bool {
    &&& r.id@ == id
    &&& r.version_id@ == version_id
    &&& r.name@ == id
    &&& r.notes@.len() == 0
    &&& inferred_game_version(version_id, r.game_version)
    &&& r.loader matches Some(l) && l@ == loader_for(version_id)
    &&& r.memory_mb is None
    &&& r.jvm_args is None
    &&& r.java_path is None
    &&& r.last_played is None
    &&& r.play_count == 0
}

/// Stored metadata that needs nothing filled in.
pub open spec fn is_complete(m: InstanceMeta) -> bool {
    m.name@.len() > 0 && m.version_id@.len() > 0 && m.game_version is Some && m.loader is Some
}

/// A stored metadata file completed: an empty name becomes the folder id,
/// an empty profile id becomes `version_id`, and a missing game version or
/// loader is inferred from the profile id.
pub fn complete_meta(meta: InstanceMeta, id: &str, version_id: &str) -> (r: InstanceMeta)
    ensures
        completed(meta, r, id@, version_id@),
{
    let mut m = meta;
    if m.name.as_str().is_empty() {
        m.name = String::from_str(id);
    }
    if m.version_id.as_str().is_empty() {
        m.version_id = String::from_str(version_id);
    }
    if m.game_version.is_none() {
        m.game_version = infer_game_version(m.version_id.as_str());
    }
    if m.loader.is_none() {
        m.loader = infer_loader(m.version_id.as_str());
    }
    m
}

/// The metadata of a new instance created at the given time.
pub fn new_instance_meta(id: &str, version_id: &str, created_at: String) -> (r: InstanceMeta)
    ensures
        fresh(r, id@, version_id@),
        r.created_at == Some(created_at),
{
    InstanceMeta {
        id: String::from_str(id),
        version_id: String::from_str(version_id),
        name: String::from_str(id),
        notes: String::new(),
        game_version: infer_game_version(version_id),
        loader: infer_loader(version_id),
        memory_mb: None,
        jvm_args: None,
        java_path: None,
        last_played: None,
        play_count: 0,
        created_at: Some(created_at),
    }
}

/// The current time in RFC 3339 form (`chrono::Utc::now().to_rfc3339()`).
/// It depends on the clock, so nothing is promised about it.
#[verifier::external_body]
fn now_rfc3339() -> (r: String) {
    chrono::Utc::now().to_rfc3339()
}

/// The metadata of instance `id` whose profile is `version_id`: the stored
/// metadata (when a readable file exists) completed, or else new metadata
/// stamped with the current time.
pub fn ensure_instance_with_version(id: &str, version_id: &str, stored: Option<InstanceMeta>) -> (r: InstanceMeta)
    ensures
        stored is None ==> fresh(r, id@, version_id@) && r.created_at is Some,
        stored matches Some(m) ==> completed(m, r, id@, version_id@),
        stored matches Some(m) ==> (is_complete(m) ==> r == m),
{
    match stored {
        Some(m) => {
            let r = complete_meta(m, id, version_id);
            proof {
                if is_complete(m) {
                    assert(r == m);
                }
            }
            r
        },
        None => new_instance_meta(id, version_id, now_rfc3339()),
    }
}

/// The metadata of instance `id`, whose profile id is its folder id.
pub fn ensure_instance(id: &str, stored: Option<InstanceMeta>) -> (r: InstanceMeta)
    ensures
        stored is None ==> fresh(r, id@, id@) && r.created_at is Some,
        stored matches Some(m) ==> completed(m, r, id@, id@),
        stored matches Some(m) ==> (is_complete(m) ==> r == m),
{
    ensure_instance_with_version(id, id, stored)
}

/// The metadata of instance `id` (as `ensure_instance`).
pub fn load_meta(id: &str, stored: Option<InstanceMeta>) -> (r: InstanceMeta)
    ensures
        stored is None ==> fresh(r, id@, id@) && r.created_at is Some,
        stored matches Some(m) ==> completed(m, r, id@, id@),
        stored matches Some(m) ==> (is_complete(m) ==> r == m),
{
    ensure_instance(id, stored)
}

/// The metadata as plain values.
pub open spec fn meta_view(m: InstanceMeta) -> (Seq<char>, Seq<char>, Seq<char>, Seq<char>, Option<Seq<char>>, Option<Seq<char>>, Option<u32>, Option<Seq<char>>, Option<Seq<char>>, Option<Seq<char>>, u64, Option<Seq<char>>) {
    (m.id@, m.version_id@, m.name@, m.notes@, opt_view(m.game_version), opt_view(m.loader), m.memory_mb,
        opt_view(m.jvm_args), opt_view(m.java_path), opt_view(m.last_played), m.play_count, opt_view(m.created_at))
}

/// Law: loading an instance's metadata a second time, from what the first
/// load gave (and saved), gives the same metadata again.
pub proof fn lemma_ensure_instance_idempotent(stored: Option<InstanceMeta>, first: InstanceMeta, second: InstanceMeta, id: Seq<char>, version_id: Seq<char>)
    requires
        stored is None ==> fresh(first, id, version_id),
        stored matches Some(m) ==> completed(m, first, id, version_id),
        completed(first, second, id, version_id),
    ensures
        meta_view(second) == meta_view(first),
{
}

/// Trimmed text, or nothing when it is empty after trimming.
pub open spec fn trimmed_nonempty(s: Option<String>) -> Option<Seq<char>> {
    match s {
        Some(v) => if trim(v@).len() > 0 { Some(trim(v@)) } else { None },
        None => None,
    }
}

/// Trimmed text, or nothing when it is empty after trimming.
fn trim_opt(s: Option<String>) -> (r: Option<String>)
    ensures
        opt_view(r) == trimmed_nonempty(s),
{
    match s {
        Some(v) => {
            let t = trim_str(v.as_str());
            if t.as_str().is_empty() {
                None
            } else {
                Some(t)
            }
        },
        None => None,
    }
}

/// The user's edit applied to the current metadata: the name trimmed
/// (the id when empty), the notes taken as given, memory kept only when at
/// least 512 MB, JVM arguments and Java path trimmed (dropped when empty),
/// and game version, loader and profile id replaced only when given.
pub fn update_instance(current: InstanceMeta, edit: InstanceMeta) -> (r: InstanceMeta)
    ensures
        r.id == current.id,
        r.name@ == if trim(edit.name@).len() == 0 { edit.id@ } else { trim(edit.name@) },
        r.notes == edit.notes,
        r.memory_mb == match edit.memory_mb {
            Some(m) => if m >= 512 { Some(m) } else { None },
            None => None,
        },
        opt_view(r.jvm_args) == trimmed_nonempty(edit.jvm_args),
        opt_view(r.java_path) == trimmed_nonempty(edit.java_path),
        r.game_version == if edit.game_version is Some { edit.game_version } else { current.game_version },
        r.loader == if edit.loader is Some { edit.loader } else { current.loader },
        r.version_id == if edit.version_id@.len() > 0 { edit.version_id } else { current.version_id },
        r.last_played == current.last_played,
        r.play_count == current.play_count,
        r.created_at == current.created_at,
{
    let mut next = current;
    let t = trim_str(edit.name.as_str());
    next.name = if t.as_str().is_empty() { edit.id.clone() } else { t };
    next.notes = edit.notes;
    next.memory_mb = match edit.memory_mb {
        Some(m) => if m >= 512 { Some(m) } else { None },
        None => None,
    };
    next.jvm_args = trim_opt(edit.jvm_args);
    next.java_path = trim_opt(edit.java_path);
    if edit.game_version.is_some() {
        next.game_version = edit.game_version;
    }
    if edit.loader.is_some() {
        next.loader = edit.loader;
    }
    if !edit.version_id.as_str().is_empty() {
        next.version_id = edit.version_id;
    }
    next
}

/// Two metadata agree on everything but the last-played time and the play count.
pub open spec fn same_but_play(a: InstanceMeta, b: InstanceMeta) -> bool {
    &&& a.id == b.id
    &&& a.version_id == b.version_id
    &&& a.name == b.name
    &&& a.notes == b.notes
    &&& a.game_version == b.game_version
    &&& a.loader == b.loader
    &&& a.memory_mb == b.memory_mb
    &&& a.jvm_args == b.jvm_args
    &&& a.java_path == b.java_path
    &&& a.created_at == b.created_at
}

/// A play recorded at time `now`: the last-played time is `now` and the
/// play count goes up by one (staying at its maximum).
pub fn record_play(meta: InstanceMeta, now: String) -> (r: InstanceMeta)
    ensures
        r.last_played == Some(now),
        r.play_count == if meta.play_count < u64::MAX { (meta.play_count + 1) as u64 } else { meta.play_count },
        same_but_play(r, meta),
{
    let mut m = meta;
    m.last_played = Some(now);
    m.play_count = if m.play_count < u64::MAX { m.play_count + 1 } else { m.play_count };
    m
}

/// A play recorded now.
pub fn mark_played(meta: InstanceMeta) -> (r: InstanceMeta)
    ensures
        r.last_played is Some,
        r.play_count == if meta.play_count < u64::MAX { (meta.play_count + 1) as u64 } else { meta.play_count },
        same_but_play(r, meta),
{
    record_play(meta, now_rfc3339())
}

/// The settings a launch of an instance uses.
#[derive(Debug, Clone)]
pub struct LaunchOptions {
    pub memory_mb: u32,
    pub jvm_args: String,
    pub java_path: Option<String>,
}

/// An instance's own value where it sets one (non-empty after trimming, for
/// text), the global value otherwise.
pub open spec fn text_override(own: Option<String>, global: Option<Seq<char>>) -> Option<Seq<char>> {
    match trimmed_nonempty(own) {
        Some(t) => Some(t),
        None => global,
    }
}

/// The launch settings of an instance: its own memory, JVM arguments and
/// Java path where its metadata sets them, the global settings otherwise.
pub fn launch_options(settings: &Settings, meta: &InstanceMeta) -> (r: LaunchOptions)
    ensures
        r.memory_mb == match meta.memory_mb {
            Some(m) => m,
            None => settings.memory_mb,
        },
        Some(r.jvm_args@) == text_override(meta.jvm_args, Some(settings.jvm_args@)),
        opt_view(r.java_path) == text_override(meta.java_path, opt_view(settings.java_path)),
{
    let memory_mb = match meta.memory_mb {
        Some(m) => m,
        None => settings.memory_mb,
    };
    let jvm_args = match trim_opt(meta.jvm_args.clone()) {
        Some(t) => t,
        None => settings.jvm_args.clone(),
    };
    let java_path = match trim_opt(meta.java_path.clone()) {
        Some(t) => Some(t),
        None => copy_opt(&settings.java_path),
    };
    LaunchOptions { memory_mb, jvm_args, java_path }
}

// ---------------------------------------------------------------------------
// Running processes
// ---------------------------------------------------------------------------

/// The game processes started by the launcher, by instance id.
#[derive(Debug, Clone)]
pub struct RunningInstances {
    entries: Vec<(String, u32)>,
}

/// No instance id occurs twice.
pub open spec fn ids_unique(e: Seq<(String, u32)>) -> bool {
    forall|i: int, j: int| 0 <= i < j < e.len() ==> e[i].0@ != e[j].0@
}

/// The table as a map from instance id to process id.
pub open spec fn entries_map(e: Seq<(String, u32)>) -> Map<Seq<char>, u32>
    decreases e.len(),
{
    if e.len() == 0 {
        Map::empty()
    } else {
        entries_map(e.drop_last()).insert(e.last().0@, e.last().1)
    }
}

impl RunningInstances {
    /// The table as a map from instance id to process id.
    pub closed spec fn view(&self) -> Map<Seq<char>, u32> {
        entries_map(self.entries@)
    }

    /// No instance id occurs twice.
    pub closed spec fn wf(&self) -> bool {
        ids_unique(self.entries@)
    }

    /// An empty table.
    pub fn new() -> (r: RunningInstances)
        ensures
            r.wf(),
            r.view() == Map::<Seq<char>, u32>::empty(),
    {
        RunningInstances { entries: Vec::new() }
    }

    /// Position of an id in the table.
    fn position(&self, id: &str) -> (r: Option<usize>)
        requires
            self.wf(),
        ensures
            r matches Some(i) ==> i < self.entries@.len() && self.entries@[i as int].0@ == id@,
            r is None ==> forall|j: int| 0 <= j < self.entries@.len() ==> self.entries@[j].0@ != id@,
    {
        let mut i: usize = 0;
        while i < self.entries.len()
            invariant
                i <= self.entries.len(),
                forall|j: int| 0 <= j < i ==> self.entries@[j].0@ != id@,
            decreases self.entries.len() - i,
        {
            if str_eq(self.entries[i].0.as_str(), id) {
                return Some(i);
            }
            i = i + 1;
        }
        None
    }

    /// The process id recorded for an instance.
    pub fn pid_of(&self, id: &str) -> (r: Option<u32>)
        requires
            self.wf(),
        ensures
            r == if self.view().dom().contains(id@) { Some(self.view()[id@]) } else { None::<u32> },
    {
        proof {
            lemma_entries_map(self.entries@);
        }
        match self.position(id) {
            Some(i) => Some(self.entries[i].1),
            None => None,
        }
    }

    /// Records that instance `id` runs as process `pid` (replacing any
    /// earlier record for it).
    pub fn register_running(&mut self, id: &str, pid: u32)
        requires
            old(self).wf(),
        ensures
            final(self).wf(),
            final(self).view() == old(self).view().insert(id@, pid),
    {
        proof {
            lemma_entries_map(self.entries@);
        }
        match self.position(id) {
            Some(i) => {
                let ghost before = self.entries@;
                let key = String::from_str(id);
                let ghost k = key;
                self.entries.set(i, (key, pid));
                proof {
                    lemma_entries_map_update(before, i as int, k, pid);
                }
            },
            None => {
                let ghost before = self.entries@;
                self.entries.push((String::from_str(id), pid));
                assert(self.entries@.drop_last() =~= before);
            },
        }
    }

    /// Forgets instance `id`.
    pub fn forget(&mut self, id: &str)
        requires
            old(self).wf(),
        ensures
            final(self).wf(),
            final(self).view() == old(self).view().remove(id@),
    {
        proof {
            lemma_entries_map(self.entries@);
        }
        match self.position(id) {
            Some(i) => {
                let ghost before = self.entries@;
                self.entries.remove(i);
                proof {
                    lemma_entries_map_remove(before, i as int);
                }
            },
            None => {
                assert(self.view() =~= self.view().remove(id@));
            },
        }
    }

    /// Whether instance `id` runs, given whether its recorded process is
    /// still alive: an unknown instance does not run; a dead one is forgotten.
    pub fn is_running(&mut self, id: &str, process_alive: bool) -> (r: bool)
        requires
            old(self).wf(),
        ensures
            final(self).wf(),
            r == (old(self).view().dom().contains(id@) && process_alive),
            !r ==> final(self).view() == old(self).view().remove(id@),
            r ==> final(self).view() == old(self).view(),
    {
        match self.pid_of(id) {
            None => {
                assert(self.view() =~= self.view().remove(id@));
                false
            },
            Some(_) => {
                if process_alive {
                    true
                } else {
                    self.forget(id);
                    false
                }
            },
        }
    }

    /// The process to stop for instance `id`; refused when it is not running.
    pub fn kill_target(&self, id: &str) -> (r: Result<u32, String>)
        requires
            self.wf(),
        ensures
            self.view().dom().contains(id@) ==> r == Ok::<u32, String>(self.view()[id@]),
            !self.view().dom().contains(id@) ==> (r matches Err(e) && e@ == "Instance is not running"@),
    {
        match self.pid_of(id) {
            Some(p) => Ok(p),
            None => Err(String::from_str("Instance is not running")),
        }
    }
}

/// Law: a launched instance is tracked until it is forgotten. Once
/// `register_running(id, pid)` has turned `table` into `table.insert(id, pid)`,
/// `pid_of` and `kill_target` answer `pid` for `id`, and every other id keeps
/// its entry; once `forget(id)` (or `is_running` on a dead process) has
/// removed it, `id` is no longer tracked.
pub proof fn lemma_register_then_forget(table: Map<Seq<char>, u32>, id: Seq<char>, pid: u32, other: Seq<char>)
    requires
        other != id,
    ensures
        table.insert(id, pid).dom().contains(id),
        table.insert(id, pid)[id] == pid,
        table.insert(id, pid).dom().contains(other) == table.dom().contains(other),
        table.dom().contains(other) ==> table.insert(id, pid)[other] == table[other],
        !table.insert(id, pid).remove(id).dom().contains(id),
        table.insert(id, pid).remove(id).dom().contains(other) == table.dom().contains(other),
{
}

/// The map of a table with unique ids: exactly the listed ids, each with its pid.
pub proof fn lemma_entries_map(e: Seq<(String, u32)>)
    requires
        ids_unique(e),
    ensures
        forall|k: Seq<char>| entries_map(e).dom().contains(k) <==> exists|i: int| 0 <= i < e.len() && e[i].0@ == k,
        forall|i: int| 0 <= i < e.len() ==> entries_map(e)[e[i].0@] == e[i].1,
    decreases e.len(),
{
    if e.len() > 0 {
        let init = e.drop_last();
        assert(ids_unique(init)) by {
            assert forall|i: int, j: int| 0 <= i < j < init.len() implies init[i].0@ != init[j].0@ by {
                assert(init[i] == e[i] && init[j] == e[j]);
            }
        }
        lemma_entries_map(init);
        assert forall|k: Seq<char>| entries_map(e).dom().contains(k) implies exists|i: int| 0 <= i < e.len() && e[i].0@ == k by {
            if k != e.last().0@ {
                assert(entries_map(init).dom().contains(k));
                let i = choose|i: int| 0 <= i < init.len() && init[i].0@ == k;
                assert(init[i] == e[i]);
                assert(e[i].0@ == k);
            } else {
                assert(e[e.len() - 1].0@ == k);
            }
        }
        assert forall|i: int| 0 <= i < e.len() implies entries_map(e)[e[i].0@] == e[i].1 by {
            if i < e.len() - 1 {
                assert(e[i] == init[i]);
                assert(e[i].0@ != e[e.len() - 1].0@);
            }
        }
        assert forall|k: Seq<char>| (exists|i: int| 0 <= i < e.len() && e[i].0@ == k) implies entries_map(e).dom().contains(k) by {
            let i = choose|i: int| 0 <= i < e.len() && e[i].0@ == k;
            if i < e.len() - 1 {
                assert(e[i] == init[i]);
            }
        }
    }
}

/// Replacing the entry of an id keeps ids unique and updates the map.
proof fn lemma_entries_map_update(e: Seq<(String, u32)>, i: int, s: String, pid: u32)
    requires
        ids_unique(e),
        0 <= i < e.len(),
        e[i].0@ == s@,
    ensures
        ids_unique(e.update(i, (s, pid))),
        entries_map(e.update(i, (s, pid))) == entries_map(e).insert(s@, pid),
{
    let f = e.update(i, (s, pid));
    assert(ids_unique(f)) by {
        assert forall|a: int, b: int| 0 <= a < b < f.len() implies f[a].0@ != f[b].0@ by {
            assert(f[a].0@ == e[a].0@ && f[b].0@ == e[b].0@);
        }
    }
    lemma_entries_map(e);
    lemma_entries_map(f);
    assert forall|k: Seq<char>| #[trigger] entries_map(f).dom().contains(k) == entries_map(e).insert(s@, pid).dom().contains(k) by {
        if exists|j: int| 0 <= j < e.len() && e[j].0@ == k {
            let j = choose|j: int| 0 <= j < e.len() && e[j].0@ == k;
            assert(f[j].0@ == k);
        }
        if exists|j: int| 0 <= j < f.len() && f[j].0@ == k {
            let j = choose|j: int| 0 <= j < f.len() && f[j].0@ == k;
            assert(e[j].0@ == k);
        }
    }
    assert forall|k: Seq<char>| entries_map(f).dom().contains(k) implies entries_map(f)[k] == entries_map(e).insert(s@, pid)[k] by {
        let j = choose|j: int| 0 <= j < f.len() && f[j].0@ == k;
        if j != i {
            assert(f[j] == e[j]);
        }
    }
    assert(entries_map(f) =~= entries_map(e).insert(s@, pid));
}

/// Removing an entry keeps ids unique and removes its id from the map.
proof fn lemma_entries_map_remove(e: Seq<(String, u32)>, i: int)
    requires
        ids_unique(e),
        0 <= i < e.len(),
    ensures
        ids_unique(e.remove(i)),
        entries_map(e.remove(i)) == entries_map(e).remove(e[i].0@),
{
    let f = e.remove(i);
    assert(ids_unique(f)) by {
        assert forall|a: int, b: int| 0 <= a < b < f.len() implies f[a].0@ != f[b].0@ by {
            let ea = if a < i { a } else { a + 1 };
            let eb = if b < i { b } else { b + 1 };
            assert(f[a] == e[ea] && f[b] == e[eb]);
        }
    }
    lemma_entries_map(e);
    lemma_entries_map(f);
    let k0 = e[i].0@;
    assert forall|k: Seq<char>| #[trigger] entries_map(f).dom().contains(k) == entries_map(e).remove(k0).dom().contains(k) by {
        if exists|j: int| 0 <= j < f.len() && f[j].0@ == k {
            let j = choose|j: int| 0 <= j < f.len() && f[j].0@ == k;
            let ej = if j < i { j } else { j + 1 };
            assert(f[j] == e[ej]);
        }
        if k != k0 && exists|j: int| 0 <= j < e.len() && e[j].0@ == k {
            let j = choose|j: int| 0 <= j < e.len() && e[j].0@ == k;
            let fj = if j < i { j } else { j - 1 };
            assert(f[fj] == e[j]);
        }
    }
    assert forall|k: Seq<char>| entries_map(f).dom().contains(k) implies entries_map(f)[k] == entries_map(e).remove(k0)[k] by {
        let j = choose|j: int| 0 <= j < f.len() && f[j].0@ == k;
        let ej = if j < i { j } else { j + 1 };
        assert(f[j] == e[ej]);
    }
    assert(entries_map(f) =~= entries_map(e).remove(k0));
}


// ---------------------------------------------------------------------------
// Folders, copies and ordering
// ---------------------------------------------------------------------------

/// The sub-folders of an instance that may be opened.
pub open spec fn allowed_folder(folder: Seq<char>) -> bool {
    folder == "mods"@ || folder == "resourcepacks"@ || folder == "shaderpacks"@
        || folder == "screenshots"@ || folder == "saves"@ || folder == "."@
}

/// The folder to open for an instance: the instance itself for `.`, one of
/// its allowed sub-folders otherwise; other names are refused.
pub fn instance_subfolder(instances_dir: &str, instance_id: &str, folder: &str) -> (r: Result<String, String>)
    ensures
        !allowed_folder(folder@) ==> (r matches Err(e) && e@ == "Folder not allowed"@),
        allowed_folder(folder@) && folder@ == "."@ ==> (r matches Ok(p) && p@ == path_join(instances_dir@, instance_id@)),
        allowed_folder(folder@) && folder@ != "."@ ==> (r matches Ok(p) && p@ == path_join(path_join(instances_dir@, instance_id@), folder@)),
{
    let ok = str_eq(folder, "mods") || str_eq(folder, "resourcepacks") || str_eq(folder, "shaderpacks")
        || str_eq(folder, "screenshots") || str_eq(folder, "saves") || str_eq(folder, ".");
    if !ok {
        return Err(String::from_str("Folder not allowed"));
    }
    let dir = crate::paths::join_path(instances_dir, instance_id);
    if str_eq(folder, ".") {
        Ok(dir)
    } else {
        Ok(crate::paths::join_path(dir.as_str(), folder))
    }
}

/// A character of a copy's folder name: ASCII letters (in their case),
/// digits, `-` and `_` are kept; every other character becomes `-`.
pub open spec fn copy_slug_char(c: char) -> char {
    if is_ascii_alnum(c) || c == '-' || c == '_' { c } else { '-' }
}

/// `str::trim_matches('-')`.
pub open spec fn trim_dashes(s: Seq<char>) -> Seq<char>
    decreases s.len(),
{
    if s.len() > 0 && s[0] == '-' {
        trim_dashes(s.drop_first())
    } else if s.len() > 0 && s.last() == '-' {
        trim_dashes(s.drop_last())
    } else {
        s
    }
}

/// Characters with leading and trailing `-` removed.
pub fn trim_dash_chars(v: &Vec<char>) -> (r: Vec<char>)
    ensures
        r@ == trim_dashes(v@),
{
    let mut i: usize = 0;
    let mut j: usize = v.len();
    assert(v@.subrange(0, v.len() as int) =~= v@);
    while i < j && v[i] == '-'
        invariant
            0 <= i <= j == v.len(),
            trim_dashes(v@) == trim_dashes(v@.subrange(i as int, j as int)),
        decreases j - i,
    {
        assert(v@.subrange(i as int, j as int).drop_first() =~= v@.subrange(i + 1, j as int));
        i = i + 1;
    }
    while i < j && v[j - 1] == '-'
        invariant
            0 <= i <= j <= v.len(),
            i < j ==> v@[i as int] != '-',
            trim_dashes(v@) == trim_dashes(v@.subrange(i as int, j as int)),
        decreases j - i,
    {
        assert(v@.subrange(i as int, j as int).drop_last() =~= v@.subrange(i as int, j - 1));
        assert(v@.subrange(i as int, j as int)[0] == v@[i as int]);
        j = j - 1;
    }
    let r = crate::text::subvec(v, i, j);
    assert(r@.len() > 0 ==> r@[0] == v@[i as int] && r@.last() == v@[j - 1]);
    r
}

/// The folder name for a copy named `name`: the trimmed name with every
/// character other than ASCII letters, digits, `-` and `_` turned into `-`,
/// and leading and trailing `-` removed.
pub open spec fn copy_slug(name: Seq<char>) -> Seq<char> {
    trim_dashes(trim(name).map_values(|c: char| copy_slug_char(c)))
}

/// The copy's folder base name, and whether the copy may be made: a name
/// that is empty after trimming is refused.
pub fn duplicate_slug(name: &str) -> (r: Result<String, String>)
    ensures
        trim(name@).len() == 0 ==> (r matches Err(e) && e@ == "Name required"@),
        trim(name@).len() > 0 ==> (r matches Ok(s) && s@ == copy_slug(name@)),
{
    let t = trim_str(name);
    if t.as_str().is_empty() {
        return Err(String::from_str("Name required"));
    }
    let v = crate::text::chars_of(t.as_str());
    let mut mapped: Vec<char> = Vec::new();
    let mut i: usize = 0;
    while i < v.len()
        invariant
            i <= v.len(),
            v@ == trim(name@),
            mapped@ == v@.take(i as int).map_values(|c: char| copy_slug_char(c)),
        decreases v.len() - i,
    {
        let c = v[i];
        let k = if is_ascii_alphanumeric(c) || c == '-' || c == '_' { c } else { '-' };
        mapped.push(k);
        i = i + 1;
        assert(mapped@ =~= v@.take(i as int).map_values(|c: char| copy_slug_char(c)));
    }
    assert(v@.take(v.len() as int) =~= v@);
    let trimmed = trim_dash_chars(&mapped);
    Ok(crate::text::string_of(&trimmed))
}

/// The first folder tried for a copy: the slug, or `<id>-copy` when the
/// slug is empty.
pub fn first_copy_id(instance_id: &str, slug: &str) -> (r: String)
    ensures
        r@ == if slug@.len() == 0 { instance_id@ + "-copy"@ } else { slug@ },
{
    if slug.is_empty() {
        concat(instance_id, "-copy")
    } else {
        String::from_str(slug)
    }
}

/// The `n`-th alternative folder for a copy: `<slug>-copy-<n>`.
pub fn copy_id_candidate(slug: &str, n: u32) -> (r: String)
    ensures
        r@ == slug@ + "-copy-"@ + decimal(n as nat),
{
    let d = decimal_string(n as u64);
    concat3(slug, "-copy-", d.as_str())
}

/// The metadata of a copy: the new folder id and name, never played,
/// created at `created_at`, everything else (the shared profile included)
/// as in the source.
pub fn duplicated_meta(source: InstanceMeta, dest_id: String, name: &str, created_at: String) -> (r: InstanceMeta)
    ensures
        r.id == dest_id,
        r.name@ == trim(name@),
        r.last_played is None,
        r.play_count == 0,
        r.created_at == Some(created_at),
        r.version_id == source.version_id,
        r.notes == source.notes,
        r.game_version == source.game_version,
        r.loader == source.loader,
        r.memory_mb == source.memory_mb,
        r.jvm_args == source.jvm_args,
        r.java_path == source.java_path,
{
    let mut m = source;
    m.id = dest_id;
    m.name = trim_str(name);
    m.last_played = None;
    m.play_count = 0;
    m.created_at = Some(created_at);
    m
}

/// What copying does with one directory entry.
#[derive(Debug, Clone)]
pub enum CopyStep {
    Skip,
    Recurse,
    Copy,
}

/// The entries left out of a copy: the metadata file, saves, logs, crash
/// reports, caches and natives folders, and the launch logs.
pub fn copy_step(name: &str, is_dir: bool) -> (r: CopyStep)
    ensures
        name@ == "cubera-instance.json"@ ==> r is Skip,
        name@ != "cubera-instance.json"@ && is_dir ==> (if name@ == "saves"@ || name@ == "logs"@
            || name@ == "crash-reports"@ || name@ == ".cache"@ || name@ == "natives"@ { r is Skip } else { r is Recurse }),
        name@ != "cubera-instance.json"@ && !is_dir ==> (if name@ == "cubera-launch.log"@
            || name@ == "cubera-launch.err.log"@ { r is Skip } else { r is Copy }),
{
    if str_eq(name, "cubera-instance.json") {
        return CopyStep::Skip;
    }
    if is_dir {
        if str_eq(name, "saves") || str_eq(name, "logs") || str_eq(name, "crash-reports")
            || str_eq(name, ".cache") || str_eq(name, "natives") {
            CopyStep::Skip
        } else {
            CopyStep::Recurse
        }
    } else if str_eq(name, "cubera-launch.log") || str_eq(name, "cubera-launch.err.log") {
        CopyStep::Skip
    } else {
        CopyStep::Copy
    }
}

/// An instance together with the keys it is listed by.
#[derive(Debug, Clone)]
pub struct ListedInstance {
    pub last_played: Option<String>,
    pub lower_name: String,
    pub info: InstanceInfo,
}

/// Listing order: never-played instances first, by lowercase name; then
/// played ones, most recently played first.
pub open spec fn listed_before(a: &ListedInstance, b: &ListedInstance) -> bool {
    match (b.last_played, a.last_played) {
        (Some(x), Some(y)) => lex_lt(x@, y@),
        (Some(_), None) => true,
        (None, Some(_)) => false,
        (None, None) => lex_lt(a.lower_name@, b.lower_name@),
    }
}

impl Ranked for ListedInstance {
    open spec fn before(&self, other: &Self) -> bool {
        listed_before(self, other)
    }

    proof fn lemma_irreflexive(a: &Self) {
        lemma_lex_irreflexive(a.lower_name@);
        if let Some(x) = a.last_played {
            lemma_lex_irreflexive(x@);
        }
    }

    proof fn lemma_transitive(a: &Self, b: &Self, c: &Self) {
        match (a.last_played, b.last_played, c.last_played) {
            (Some(x), Some(y), Some(z)) => lemma_lex_transitive(z@, y@, x@),
            (None, None, None) => lemma_lex_transitive(a.lower_name@, b.lower_name@, c.lower_name@),
            _ => {},
        }
    }

    fn precedes(&self, other: &Self) -> (r: bool) {
        match (&other.last_played, &self.last_played) {
            (Some(x), Some(y)) => text_lt(x.as_str(), y.as_str()),
            (Some(_), None) => true,
            (None, Some(_)) => false,
            (None, None) => text_lt(self.lower_name.as_str(), other.lower_name.as_str()),
        }
    }
}

/// An instance with its listing keys; the name key is its Unicode lowercase form.
pub fn listed(info: InstanceInfo) -> (r: ListedInstance)
    ensures
        r.info == info,
        r.last_played == info.last_played,
        r.lower_name@ == unicode_lowercase(info.name@),
{
    ListedInstance {
        last_played: copy_opt(&info.last_played),
        lower_name: lowercase(info.name.as_str()),
        info,
    }
}

/// Instances in listing order (a stable sort).
pub fn sort_listed(v: Vec<ListedInstance>) -> (r: Vec<ListedInstance>)
    ensures
        r@ == crate::sorting::stable_sorted(v@),
        crate::sorting::sorted_by(r@),
        r@.to_multiset() == v@.to_multiset(),
{
    crate::sorting::sort_stable(v)
}


/// Trimming `-` keeps a contiguous part of the text that, when not empty,
/// neither starts nor ends with `-`.
pub proof fn lemma_trim_dashes(s: Seq<char>)
    ensures
        exists|a: int, b: int| 0 <= a <= b <= s.len() && #[trigger] s.subrange(a, b) == trim_dashes(s),
        trim_dashes(s).len() > 0 ==> trim_dashes(s)[0] != '-' && trim_dashes(s).last() != '-',
    decreases s.len(),
{
    if s.len() > 0 && s[0] == '-' {
        lemma_trim_dashes(s.drop_first());
        let (a, b) = choose|a: int, b: int| 0 <= a <= b <= s.drop_first().len() && #[trigger] s.drop_first().subrange(a, b) == trim_dashes(s.drop_first());
        assert(s.subrange(a + 1, b + 1) =~= s.drop_first().subrange(a, b));
    } else if s.len() > 0 && s.last() == '-' {
        lemma_trim_dashes(s.drop_last());
        let (a, b) = choose|a: int, b: int| 0 <= a <= b <= s.drop_last().len() && #[trigger] s.drop_last().subrange(a, b) == trim_dashes(s.drop_last());
        assert(s.subrange(a, b) =~= s.drop_last().subrange(a, b));
    } else {
        assert(s.subrange(0, s.len() as int) =~= s);
    }
}

} // verus!
