//! Decisions behind the launcher's commands that combine several parts.
use vstd::prelude::*;
use crate::java_runtime::ManagedJavaInfo;
use crate::paths::{join_path, path_join};
use crate::text::{str_eq, views};

verus! {

/// The Java the launcher reports, with the managed runtimes.
#[derive(Debug, Clone)]
pub struct JavaInfo {
    pub path: Option<String>,
    pub found: bool,
    pub managed: Vec<ManagedJavaInfo>,
}

/// The first installed managed runtime.
pub open spec fn first_installed(m: Seq<ManagedJavaInfo>) -> Option<int>
    decreases m.len(),
{
    if m.len() == 0 {
        None
    } else if m[0].installed {
        Some(0)
    } else {
        match first_installed(m.drop_first()) {
            Some(i) => Some(i + 1),
            None => None,
        }
    }
}

/// The reported Java: the detected one if any, else the first installed
/// managed runtime, else none.
pub fn java_info(detected: Option<String>, managed: Vec<ManagedJavaInfo>) -> (r: JavaInfo)
    ensures
        r.managed == managed,
        detected matches Some(p) ==> r.found && r.path == Some(p),
        detected is None ==> match first_installed(managed@) {
            Some(i) => 0 <= i < managed.len() && r.found && (r.path matches Some(p) && p@ == managed@[i].path@),
            None => !r.found && r.path is None,
        },
{
    if let Some(p) = detected {
        return JavaInfo { path: Some(p), found: true, managed };
    }
    let mut i: usize = 0;
    assert(managed@.skip(0) =~= managed@);
    while i < managed.len()
        invariant
            i <= managed.len(),
            detected is None,
            first_installed(managed@) == match first_installed(managed@.skip(i as int)) {
                Some(k) => Some(k + i),
                None => None,
            },
        decreases managed.len() - i,
    {
        assert(managed@.skip(i as int).drop_first() =~= managed@.skip(i + 1));
        assert(managed@.skip(i as int)[0] == managed@[i as int]);
        if managed[i].installed {
            let p = managed[i].path.clone();
            return JavaInfo { path: Some(p), found: true, managed };
        }
        i = i + 1;
    }
    JavaInfo { path: None, found: false, managed }
}

/// The profile a deleted instance used: the one its metadata names, else
/// the instance id.
pub fn deleted_profile(meta_version_id: Option<String>, instance_id: &str) -> (r: String)
    ensures
        r@ == match meta_version_id {
            Some(v) => v@,
            None => instance_id@,
        },
{
    match meta_version_id {
        Some(v) => v,
        None => String::from_str(instance_id),
    }
}

/// Whether a profile is still used by one of the remaining instances
/// (given by the profiles they use); an unused profile is removed.
pub fn profile_still_used(version_id: &str, used: &Vec<String>) -> (r: bool)
    ensures
        r == views(used@).contains(version_id@),
{
    let mut i: usize = 0;
    while i < used.len()
        invariant
            i <= used.len(),
            forall|j: int| 0 <= j < i ==> views(used@)[j] != version_id@,
        decreases used.len() - i,
    {
        if str_eq(used[i].as_str(), version_id) {
            assert(views(used@)[i as int] == version_id@);
            return true;
        }
        i = i + 1;
    }
    false
}

/// A mod file of an instance: `instances/<id>/mods/<file>`.
pub fn mod_file_path(instances_dir: &str, instance_id: &str, filename: &str) -> (r: String)
    ensures
        r@ == path_join(path_join(path_join(instances_dir@, instance_id@), "mods"@), filename@),
{
    let d = crate::modrinth::mods_dir(instances_dir, instance_id);
    join_path(d.as_str(), filename)
}

} // verus!
