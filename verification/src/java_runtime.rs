//! Java runtimes that the launcher installs from Mojang: which runtime a
//! game needs, where each is kept, and which of its files are fetched.
use vstd::prelude::*;
use crate::branding::first_present;
use crate::download::{progress_event, ProgressEvent};
use crate::paths::{join_path, path_join};
use crate::text::{concat, concat3, decimal, decimal_string, push_all, str_eq, views};

verus! {

/// A managed Java runtime and whether it is installed.
#[derive(Debug, Clone)]
pub struct ManagedJavaInfo {
    pub component: String,
    pub version: String,
    pub path: String,
    pub installed: bool,
}

/// Mojang's name for a platform, from the operating system and CPU
/// architecture names Rust uses (`std::env::consts`).
pub open spec fn platform_name(os: Seq<char>, arch: Seq<char>) -> Seq<char> {
    if os == "macos"@ {
        if arch == "aarch64"@ { "mac-os-arm64"@ } else { "mac-os"@ }
    } else if os == "linux"@ {
        if arch == "x86"@ { "linux-i386"@ } else { "linux"@ }
    } else if os == "windows"@ {
        if arch == "aarch64"@ {
            "windows-arm64"@
        } else if arch == "x86"@ {
            "windows-x86"@
        } else {
            "windows-x64"@
        }
    } else {
        "linux"@
    }
}

/// Mojang's name for the given platform.
pub fn platform_key(os: &str, arch: &str) -> (r: String)
    ensures
        r@ == platform_name(os@, arch@),
{
    proof {
        reveal_strlit("macos");
        reveal_strlit("linux");
        reveal_strlit("windows");
        reveal_strlit("aarch64");
        reveal_strlit("x86");
    }
    if str_eq(os, "macos") {
        if str_eq(arch, "aarch64") {
            String::from_str("mac-os-arm64")
        } else {
            String::from_str("mac-os")
        }
    } else if str_eq(os, "linux") {
        if str_eq(arch, "x86") {
            String::from_str("linux-i386")
        } else {
            String::from_str("linux")
        }
    } else if str_eq(os, "windows") {
        if str_eq(arch, "aarch64") {
            String::from_str("windows-arm64")
        } else if str_eq(arch, "x86") {
            String::from_str("windows-x86")
        } else {
            String::from_str("windows-x64")
        }
    } else {
        String::from_str("linux")
    }
}

/// Where a runtime component is kept: `java/<platform>/<component>`.
pub fn component_dir(java_dir: &str, platform: &str, component: &str) -> (r: String)
    ensures
        r@ == path_join(path_join(java_dir@, platform@), component@),
{
    let p = join_path(java_dir, platform);
    join_path(p.as_str(), component)
}

/// Where a runtime's `java` binary may be, in order of preference.
pub open spec fn bin_candidates(base: Seq<char>) -> Seq<Seq<char>> {
    seq![
        path_join(base, "jre.bundle/Contents/Home/bin/java"@),
        path_join(base, "bin/java"@),
        path_join(base, "java"@),
    ]
}

/// Where a runtime's `java` binary may be, in order of preference.
pub fn java_bin_candidates(component_dir: &str) -> (r: Vec<String>)
    ensures
        views(r@) == bin_candidates(component_dir@),
{
    let mut r: Vec<String> = Vec::new();
    r.push(join_path(component_dir, "jre.bundle/Contents/Home/bin/java"));
    r.push(join_path(component_dir, "bin/java"));
    r.push(join_path(component_dir, "java"));
    assert(views(r@) =~= bin_candidates(component_dir@));
    r
}

/// The first candidate that is present.
pub open spec fn first_flagged(c: Seq<Seq<char>>, present: Seq<bool>) -> Option<Seq<char>>
    decreases c.len(),
{
    if c.len() == 0 || present.len() == 0 {
        None
    } else if present[0] {
        Some(c[0])
    } else {
        first_flagged(c.drop_first(), present.drop_first())
    }
}

proof fn lemma_first_flagged(c: Seq<Seq<char>>, present: Seq<bool>, i: int)
    requires
        c.len() == present.len(),
        0 <= i <= c.len(),
        forall|j: int| 0 <= j < i ==> !present[j],
    ensures
        i < c.len() && present[i] ==> first_flagged(c, present) == Some(c[i]),
        i == c.len() ==> first_flagged(c, present) is None,
    decreases i,
{
    if i > 0 {
        lemma_first_flagged(c.drop_first(), present.drop_first(), i - 1);
    }
}

/// A runtime's `java` binary: the first of its candidates (see
/// `java_bin_candidates`) that exists, given which do.
pub fn managed_java_bin(component_dir: &str, present: &Vec<bool>) -> (r: Option<String>)
    requires
        present.len() == 3,
    ensures
        crate::forge::opt_str(r) == first_flagged(bin_candidates(component_dir@), present@),
{
    let c = java_bin_candidates(component_dir);
    let r = first_present(&c, present);
    proof {
        match &r {
            Some(x) => {
                let i = choose|i: int|
                    0 <= i < c.len() && present@[i] && x@ == c@[i]@
                        && forall|j: int| 0 <= j < i ==> !present@[j];
                assert(views(c@)[i] == c@[i]@);
                lemma_first_flagged(views(c@), present@, i);
            },
            None => {
                lemma_first_flagged(views(c@), present@, 3);
            },
        }
    }
    r
}

/// The runtime components the launcher offers, newest first.
pub open spec fn components() -> Seq<Seq<char>> {
    seq![
        "java-runtime-epsilon"@,
        "java-runtime-delta"@,
        "java-runtime-gamma"@,
        "java-runtime-beta"@,
        "java-runtime-alpha"@,
        "jre-legacy"@,
    ]
}

/// The runtime components the launcher offers, newest first.
pub fn java_components() -> (r: Vec<String>)
    ensures
        views(r@) == components(),
{
    let mut r: Vec<String> = Vec::new();
    r.push(String::from_str("java-runtime-epsilon"));
    r.push(String::from_str("java-runtime-delta"));
    r.push(String::from_str("java-runtime-gamma"));
    r.push(String::from_str("java-runtime-beta"));
    r.push(String::from_str("java-runtime-alpha"));
    r.push(String::from_str("jre-legacy"));
    assert(views(r@) =~= components());
    r
}

/// The offered components with their binaries (given per component, in
/// the order of `java_components`): installed exactly when a binary was
/// found, with its path (empty otherwise), and no version.
pub fn list_managed_java(bins: Vec<Option<String>>) -> (r: Vec<ManagedJavaInfo>)
    requires
        bins.len() == 6,
    ensures
        r.len() == 6,
        forall|i: int| 0 <= i < 6 ==> {
            &&& #[trigger] r@[i].component@ == components()[i]
            &&& r@[i].version@.len() == 0
            &&& r@[i].installed == (bins@[i] is Some)
            &&& r@[i].path@ == match bins@[i] {
                Some(p) => p@,
                None => Seq::<char>::empty(),
            }
        },
{
    let names = java_components();
    assert(names.len() == views(names@).len() && components().len() == 6);
    let mut r: Vec<ManagedJavaInfo> = Vec::new();
    let mut i: usize = 0;
    while i < 6
        invariant
            i <= 6,
            bins.len() == 6,
            views(names@) == components(),
            names.len() == 6,
            r.len() == i,
            forall|k: int| 0 <= k < i ==> {
                &&& #[trigger] r@[k].component@ == components()[k]
                &&& r@[k].version@.len() == 0
                &&& r@[k].installed == (bins@[k] is Some)
                &&& r@[k].path@ == match bins@[k] {
                    Some(p) => p@,
                    None => Seq::<char>::empty(),
                }
            },
        decreases 6 - i,
    {
        let path = match &bins[i] {
            Some(p) => p.clone(),
            None => String::new(),
        };
        assert(views(names@)[i as int] == names@[i as int]@);
        r.push(ManagedJavaInfo {
            component: names[i].clone(),
            version: String::new(),
            path,
            installed: bins[i].is_some(),
        });
        i = i + 1;
    }
    r
}

/// The runtime for a Java major version: 8 and older the legacy runtime,
/// 9 to 16 alpha, 17 gamma, 18 to 21 delta, newer ones epsilon.
pub open spec fn component_name(major: u32) -> Seq<char> {
    if major <= 8 {
        "jre-legacy"@
    } else if major <= 16 {
        "java-runtime-alpha"@
    } else if major == 17 {
        "java-runtime-gamma"@
    } else if major <= 21 {
        "java-runtime-delta"@
    } else {
        "java-runtime-epsilon"@
    }
}

/// The runtime component for a Java major version.
pub fn component_for_major(major: u32) -> (r: String)
    ensures
        r@ == component_name(major),
{
    if major <= 8 {
        String::from_str("jre-legacy")
    } else if major <= 16 {
        String::from_str("java-runtime-alpha")
    } else if major == 17 {
        String::from_str("java-runtime-gamma")
    } else if major <= 21 {
        String::from_str("java-runtime-delta")
    } else {
        String::from_str("java-runtime-epsilon")
    }
}

/// The platform names under which a runtime is looked up, in order: the
/// platform's own, and for ARM64 Macs also the Intel one.
pub fn runtime_platforms(platform: &str) -> (r: Vec<String>)
    ensures
        views(r@) == if platform@ == "mac-os-arm64"@ { seq![platform@, "mac-os"@] } else { seq![platform@] },
{
    let mut r: Vec<String> = Vec::new();
    r.push(String::from_str(platform));
    if str_eq(platform, "mac-os-arm64") {
        r.push(String::from_str("mac-os"));
    }
    assert(views(r@) =~= if platform@ == "mac-os-arm64"@ { seq![platform@, "mac-os"@] } else { seq![platform@] });
    r
}

/// The error when no platform offers a component.
pub fn component_unavailable_message(component: &str, platform: &str) -> (r: String)
    ensures
        r@ == "Java component `"@ + component@ + "` not available for "@ + platform@,
{
    let mut r = concat3("Java component `", component, "` not available for ");
    push_all(&mut r, platform);
    r
}

/// A file of a runtime's manifest: its path, its kind (`file`, `directory`
/// or `link`), whether it has a download section, its plain download (URL
/// and SHA-1), whether it has a compressed download, and whether it is
/// executable.
#[derive(Debug, Clone)]
pub struct JavaFile {
    pub rel: String,
    pub kind: String,
    pub has_downloads: bool,
    pub raw: Option<(String, Option<String>)>,
    pub has_lzma: bool,
    pub executable: Option<bool>,
}

/// What to do with a file of a runtime.
#[derive(Debug, Clone)]
pub enum JavaFileStep {
    Skip,
    Download { dest: String, url: String, sha1: Option<String>, executable: bool },
    Fail(String),
}

/// The files of kind `file`, in order.
pub open spec fn plain_files(files: Seq<JavaFile>) -> Seq<JavaFile>
    decreases files.len(),
{
    if files.len() == 0 {
        Seq::empty()
    } else {
        let rest = plain_files(files.drop_last());
        if files.last().kind@ == "file"@ {
            rest.push(files.last())
        } else {
            rest
        }
    }
}

/// The step for one file: files without downloads are skipped; without a
/// plain download, one with only a compressed download is an error and
/// others are skipped; else it is downloaded below `root`.
pub open spec fn file_step(f: JavaFile, root: Seq<char>) -> (int, Seq<char>, Seq<char>, Option<Seq<char>>, bool) {
    if !f.has_downloads {
        (0, Seq::empty(), Seq::empty(), None, false)
    } else {
        match f.raw {
            None => if f.has_lzma {
                (2, "Java file `"@ + f.rel@ + "` only has lzma download"@, Seq::empty(), None, false)
            } else {
                (0, Seq::empty(), Seq::empty(), None, false)
            },
            Some(raw) => (1, path_join(root, f.rel@), raw.0@, crate::forge::opt_str(raw.1), match f.executable {
                Some(b) => b,
                None => false,
            }),
        }
    }
}

/// A step as plain values: its kind (0 skip, 1 download, 2 error), the
/// destination or the error, the URL, the SHA-1 and whether the file is
/// executable.
pub open spec fn step_view(s: JavaFileStep) -> (int, Seq<char>, Seq<char>, Option<Seq<char>>, bool) {
    match s {
        JavaFileStep::Skip => (0, Seq::empty(), Seq::empty(), None, false),
        JavaFileStep::Download { dest, url, sha1, executable } => (1, dest@, url@, crate::forge::opt_str(sha1), executable),
        JavaFileStep::Fail(e) => (2, e@, Seq::empty(), None, false),
    }
}

/// The steps for a runtime's files, and how many plain files there are.
#[derive(Debug, Clone)]
pub struct JavaFilePlan {
    pub total: usize,
    pub steps: Vec<JavaFileStep>,
}

fn file_step_of(f: &JavaFile, root: &str) -> (r: JavaFileStep)
    ensures
        step_view(r) == file_step(*f, root@),
{
    if !f.has_downloads {
        return JavaFileStep::Skip;
    }
    match &f.raw {
        None => {
            if f.has_lzma {
                JavaFileStep::Fail(concat3("Java file `", f.rel.as_str(), "` only has lzma download"))
            } else {
                JavaFileStep::Skip
            }
        },
        Some(raw) => {
            let sha1 = match &raw.1 {
                Some(s) => Some(s.clone()),
                None => None,
            };
            let executable = match f.executable {
                Some(b) => b,
                None => false,
            };
            JavaFileStep::Download { dest: join_path(root, f.rel.as_str()), url: raw.0.clone(), sha1, executable }
        },
    }
}

/// The steps for a runtime's plain files, in manifest order, up to and
/// including the first error.
pub fn java_file_plan(files: &Vec<JavaFile>, root: &str) -> (r: JavaFilePlan)
    ensures
        r.total == plain_files(files@).len(),
        r.steps.len() <= r.total,
        forall|i: int| 0 <= i < r.steps.len() ==> step_view(#[trigger] r.steps@[i]) == file_step(plain_files(files@)[i], root@),
        forall|i: int| 0 <= i < r.steps.len() - 1 ==> step_view(#[trigger] r.steps@[i]).0 != 2,
        r.steps.len() < r.total ==> r.steps.len() > 0 && step_view(r.steps@.last()).0 == 2,
{
    let mut plain: Vec<usize> = Vec::new();
    let mut i: usize = 0;
    while i < files.len()
        invariant
            i <= files.len(),
            plain.len() == plain_files(files@.take(i as int)).len(),
            forall|k: int| 0 <= k < plain.len() ==> #[trigger] plain@[k] < i,
            forall|k: int| 0 <= k < plain.len() ==> files@[#[trigger] plain@[k] as int] == plain_files(files@.take(i as int))[k],
        decreases files.len() - i,
    {
        assert(files@.take(i + 1).drop_last() =~= files@.take(i as int));
        assert(files@.take(i + 1).last() == files@[i as int]);
        let ghost pf = plain_files(files@.take(i as int));
        let ghost old_plain = plain@;
        if str_eq(files[i].kind.as_str(), "file") {
            plain.push(i);
            assert(plain_files(files@.take(i + 1)) == pf.push(files@[i as int]));
            assert forall|k: int| 0 <= k < plain.len() implies files@[#[trigger] plain@[k] as int] == plain_files(files@.take(i + 1))[k] by {
                if k < old_plain.len() {
                    assert(plain@[k] == old_plain[k]);
                    assert(files@[old_plain[k] as int] == pf[k]);
                } else {
                    assert(k == pf.len());
                    assert(plain@[k] == i);
                }
            }
        } else {
            assert(plain_files(files@.take(i + 1)) == pf);
        }
        i = i + 1;
    }
    assert(files@.take(files.len() as int) =~= files@);
    let total = plain.len();
    let mut steps: Vec<JavaFileStep> = Vec::new();
    let mut k: usize = 0;
    while k < total
        invariant
            k <= total == plain.len() == plain_files(files@).len(),
            steps.len() == k,
            forall|j: int| 0 <= j < plain.len() ==> #[trigger] plain@[j] < files.len(),
            forall|j: int| 0 <= j < plain.len() ==> files@[#[trigger] plain@[j] as int] == plain_files(files@)[j],
            forall|j: int| 0 <= j < k ==> step_view(#[trigger] steps@[j]) == file_step(plain_files(files@)[j], root@),
            forall|j: int| 0 <= j < k ==> step_view(#[trigger] steps@[j]).0 != 2,
        decreases total - k,
    {
        let s = file_step_of(&files[plain[k]], root);
        let failed = match &s {
            JavaFileStep::Fail(_) => true,
            _ => false,
        };
        steps.push(s);
        k = k + 1;
        if failed {
            return JavaFilePlan { total, steps };
        }
    }
    JavaFilePlan { total, steps }
}

/// Progress is reported for the first of every twenty runtime files and
/// for the last.
pub open spec fn java_progress_due(index: int, count: int) -> bool {
    index % 20 == 0 || index + 1 == count
}

/// The progress event before runtime file `index` (from 0) of `count`, if
/// one is due: stage `java`, message `Downloading Java files <index>/<count>`.
pub fn java_file_progress(index: u64, count: u64) -> (r: Option<ProgressEvent>)
    requires
        index < count,
    ensures
        r is Some <==> java_progress_due(index as int, count as int),
        r matches Some(e) ==> e.stage@ == "java"@ && e.current == index && e.total == count
            && e.message@ == "Downloading Java files "@ + decimal(index as nat) + "/"@ + decimal(count as nat),
{
    if index % 20 == 0 || index + 1 == count {
        let mut m = String::from_str("Downloading Java files ");
        let a = decimal_string(index);
        push_all(&mut m, a.as_str());
        push_all(&mut m, "/");
        let b = decimal_string(count);
        push_all(&mut m, b.as_str());
        proof {
            reveal_strlit("Downloading Java files ");
        }
        Some(progress_event("java", index, count, m.as_str()))
    } else {
        None
    }
}

/// The Java path setting after a runtime was installed: a configured path
/// is kept, else the runtime's binary becomes the setting.
pub fn java_path_after_install(current: Option<String>, bin: &str) -> (r: Option<String>)
    ensures
        crate::forge::opt_str(r) == match current {
            Some(p) => Some(p@),
            None => Some(bin@),
        },
{
    match current {
        Some(p) => Some(p),
        None => Some(String::from_str(bin)),
    }
}

/// A runtime that is ready at `bin`, with the given version text.
pub fn installed_java(component: &str, version: String, bin: &str) -> (r: ManagedJavaInfo)
    ensures
        r.component@ == component@,
        r.version == version,
        r.path@ == bin@,
        r.installed,
{
    ManagedJavaInfo { component: String::from_str(component), version, path: String::from_str(bin), installed: true }
}

} // verus!
