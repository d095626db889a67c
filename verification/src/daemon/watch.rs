//! Which list a change on disk makes stale.
use vstd::prelude::*;

verus! {

/// Whether the path `path` begins with the components of `base`, as
/// `std::path::Path::starts_with` decides.
pub uninterp spec fn path_starts_with_spec(path: Seq<char>, base: Seq<char>) -> bool;

/// Calls `std::path::Path::starts_with`, which compares whole path
/// components; the result is a function of the two paths, named
/// `path_starts_with_spec`.
#[verifier::external_body]
fn path_starts_with(path: &str, base: &str) -> (res: bool)
    ensures
        res == path_starts_with_spec(path@, base@),
{
    std::path::Path::new(path).starts_with(base)
}

/// The kind of a change that the file watcher reports.
pub enum FsChange {
    Create,
    Remove,
    Modify,
    Other,
}

/// The list to scan again after a change.
pub enum Rescan {
    Projects,
    Apps,
    Nothing,
}

/// Whether one of `paths` lies in the directory `dir`.
pub open spec fn touches_dir(paths: Seq<Seq<char>>, dir: Seq<char>) -> bool {
    exists|i: int| 0 <= i < paths.len() && path_starts_with_spec(#[trigger] paths[i], dir)
}

/// What a change calls for: creating, removing or modifying something in
/// the projects directory makes the projects stale, anywhere else the
/// programs; other changes call for nothing.
pub open spec fn rescan_spec(change: FsChange, paths: Seq<Seq<char>>, dir: Seq<char>) -> Rescan {
    match change {
        FsChange::Other => Rescan::Nothing,
        _ => if touches_dir(paths, dir) {
            Rescan::Projects
        } else {
            Rescan::Apps
        },
    }
}

/// The list to scan again after a change of kind `change` to `paths`.
pub fn rescan_for(change: &FsChange, paths: &Vec<String>, projects_dir: &str) -> (res: Rescan)
    ensures
        res == rescan_spec(*change, paths@.map_values(|p: String| p@), projects_dir@),
{
    let ghost pv = paths@.map_values(|p: String| p@);
    match change {
        FsChange::Other => Rescan::Nothing,
        _ => {
            let mut found = false;
            let mut i: usize = 0;
            while i < paths.len() && !found
                invariant
                    i <= paths@.len(),
                    pv == paths@.map_values(|p: String| p@),
                    found <==> touches_dir(pv.take(i as int), projects_dir@),
                decreases paths@.len() - i,
            {
                if path_starts_with(paths[i].as_str(), projects_dir) {
                    found = true;
                    assert(pv.take(i + 1)[i as int] == pv[i as int]);
                }
                proof {
                    if touches_dir(pv.take(i + 1), projects_dir@) && !found {
                        let k = choose|k: int|
                            0 <= k < i + 1 && path_starts_with_spec(
                                #[trigger] pv.take(i + 1)[k],
                                projects_dir@,
                            );
                        assert(pv.take(i as int)[k] == pv[k]);
                    }
                    if touches_dir(pv.take(i as int), projects_dir@) {
                        let k = choose|k: int|
                            0 <= k < i && path_starts_with_spec(
                                #[trigger] pv.take(i as int)[k],
                                projects_dir@,
                            );
                        assert(pv.take(i + 1)[k] == pv[k]);
                    }
                }
                i = i + 1;
            }
            proof {
                if found {
                    let k = choose|k: int|
                        0 <= k < i && path_starts_with_spec(#[trigger] pv.take(i as int)[k], projects_dir@);
                    assert(pv[k] == pv.take(i as int)[k]);
                } else {
                    assert(pv.take(i as int) =~= pv);
                }
            }
            if found {
                Rescan::Projects
            } else {
                Rescan::Apps
            }
        },
    }
}

/// Creating, removing and modifying are treated alike: after any of them the
/// projects are scanned again exactly when one of the paths lies in the
/// projects directory, and the programs otherwise.
pub proof fn lemma_changes_alike(change: FsChange, paths: Seq<Seq<char>>, dir: Seq<char>)
    requires
        !(change is Other),
    ensures
        rescan_spec(change, paths, dir) == rescan_spec(FsChange::Create, paths, dir),
        rescan_spec(change, paths, dir) == rescan_spec(FsChange::Remove, paths, dir),
        rescan_spec(change, paths, dir) == rescan_spec(FsChange::Modify, paths, dir),
        (exists|i: int| 0 <= i < paths.len() && path_starts_with_spec(#[trigger] paths[i], dir))
            ==> rescan_spec(change, paths, dir) == Rescan::Projects,
        (forall|i: int| 0 <= i < paths.len() ==> !path_starts_with_spec(#[trigger] paths[i], dir))
            ==> rescan_spec(change, paths, dir) == Rescan::Apps,
{
}

} // verus!
