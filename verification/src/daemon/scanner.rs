//! Turning directory listings into lists of projects and programs.
use vstd::prelude::*;

use crate::protocol::{apps_view, projects_view, App, EntryView, Project};
use crate::text::{has_prefix, strip_prefix};

verus! {

/// One entry of a directory walk of depth one.
pub struct WalkEntry {
    /// The entry's path, as the walk gives it.
    pub path: String,
    /// The last component of the path, if it has one.
    pub file_name: Option<String>,
    pub is_dir: bool,
    pub is_file: bool,
    /// Whether the entry is the walked directory itself.
    pub is_root: bool,
}

/// The mathematical value of a walk entry.
pub struct WalkEntryView {
    pub path: Seq<char>,
    pub file_name: Option<Seq<char>>,
    pub is_dir: bool,
    pub is_file: bool,
    pub is_root: bool,
}

impl View for WalkEntry {
    type V = WalkEntryView;

    open spec fn view(&self) -> WalkEntryView {
        WalkEntryView {
            path: self.path@,
            file_name: match self.file_name {
                Some(n) => Some(n@),
                None => None,
            },
            is_dir: self.is_dir,
            is_file: self.is_file,
            is_root: self.is_root,
        }
    }
}

/// The values of a walk.
pub open spec fn walk_view(s: Seq<WalkEntry>) -> Seq<WalkEntryView> {
    s.map_values(|e: WalkEntry| e@)
}

/// The values of several walks.
pub open spec fn walks_view(s: Seq<Vec<WalkEntry>>) -> Seq<Seq<WalkEntryView>> {
    s.map_values(|w: Vec<WalkEntry>| walk_view(w@))
}

/// The name of a project: its path relative to the projects directory, or
/// the whole path when the path does not begin with that directory.
pub open spec fn project_name(path: Seq<char>, dir: Seq<char>) -> Seq<char> {
    if has_prefix(path, dir) {
        path.skip(dir.len() as int)
    } else {
        path
    }
}

/// Whether a walk entry of the projects directory is a project: a
/// directory other than the projects directory itself.
pub open spec fn is_project_entry(e: WalkEntryView) -> bool {
    !e.is_root && e.is_dir
}

/// The projects that a walk of the projects directory finds, in walk order.
pub open spec fn projects_found(entries: Seq<WalkEntryView>, dir: Seq<char>) -> Seq<EntryView>
    decreases entries.len(),
{
    if entries.len() == 0 {
        Seq::empty()
    } else {
        let e = entries.last();
        let rest = projects_found(entries.drop_last(), dir);
        if is_project_entry(e) {
            rest.push(EntryView { name: project_name(e.path, dir), path: e.path })
        } else {
            rest
        }
    }
}

/// The message of a scan of a projects directory that does not exist.
pub open spec fn missing_dir_message() -> Seq<char> {
    "Projects directory not found"@
}

/// The project of a walk entry of the projects directory `dir`.
pub fn project_from_entry(entry: &WalkEntry, dir: &str) -> (res: Project)
    ensures
        res@ == (EntryView { name: project_name(entry@.path, dir@), path: entry@.path }),
{
    let name = match strip_prefix(entry.path.as_str(), dir) {
        Some(rest) => String::from_str(rest),
        None => entry.path.clone(),
    };
    Project { name, path: entry.path.clone() }
}

/// Adds to `projects` the projects that a walk of `projects_dir` found:
/// every directory below it, named by its path relative to `projects_dir`.
/// `listing` is `None` when the directory does not exist; then nothing is
/// added and the scan fails.
pub fn scan_projects(
    projects: &mut Vec<Project>,
    projects_dir: &str,
    listing: Option<&Vec<WalkEntry>>,
) -> (res: Result<(), String>)
    ensures
        listing is None ==> (res matches Err(msg) && msg@ == missing_dir_message())
            && projects_view(final(projects)@) == projects_view(old(projects)@),
        listing matches Some(entries) ==> res is Ok && projects_view(final(projects)@)
            == projects_view(old(projects)@) + projects_found(walk_view(entries@), projects_dir@),
{
    match listing {
        None => Err(String::from_str("Projects directory not found")),
        Some(entries) => {
            let ghost start = projects_view(projects@);
            let ghost all = walk_view(entries@);
            for i in 0..entries.len()
                invariant
                    all == walk_view(entries@),
                    projects_view(projects@) =~= start + projects_found(all.take(i as int), projects_dir@),
            {
                assert(all.take(i + 1).drop_last() =~= all.take(i as int));
                let entry = &entries[i];
                assert(all.take(i + 1).last() == entry@);
                let ghost prev = projects@;
                if !entry.is_root && entry.is_dir {
                    let p = project_from_entry(entry, projects_dir);
                    projects.push(p);
                    assert(projects_view(projects@) =~= projects_view(prev).push(p@));
                }
            }
            assert(all.take(entries@.len() as int) =~= all);
            Ok(())
        },
    }
}

/// Whether a walk entry of a program directory is a program: a file.
pub open spec fn is_app_entry(e: WalkEntryView) -> bool {
    e.is_file
}

/// Every file of a walk has a name.
pub open spec fn files_named(entries: Seq<WalkEntryView>) -> bool {
    forall|i: int| 0 <= i < entries.len() && (#[trigger] entries[i]).is_file ==> entries[i].file_name is Some
}

/// The programs that a walk of a program directory finds, in walk order.
pub open spec fn apps_found(entries: Seq<WalkEntryView>) -> Seq<EntryView>
    decreases entries.len(),
{
    if entries.len() == 0 {
        Seq::empty()
    } else {
        let e = entries.last();
        let rest = apps_found(entries.drop_last());
        if is_app_entry(e) {
            rest.push(EntryView { name: e.file_name.unwrap(), path: e.path })
        } else {
            rest
        }
    }
}

/// The programs that walks of several directories find, directory after directory.
pub open spec fn apps_found_in(walks: Seq<Seq<WalkEntryView>>) -> Seq<EntryView>
    decreases walks.len(),
{
    if walks.len() == 0 {
        Seq::empty()
    } else {
        apps_found_in(walks.drop_last()) + apps_found(walks.last())
    }
}

/// The directories that hold the installed programs.
pub fn app_dirs() -> (res: Vec<&'static str>)
    ensures
        res@.len() == 2,
        res@[0]@ == "/usr/bin"@,
        res@[1]@ == "/bin"@,
{
    let mut dirs: Vec<&'static str> = Vec::new();
    dirs.push("/usr/bin");
    dirs.push("/bin");
    dirs
}

/// Adds to `apps` the programs that walks of the program directories found:
/// every file, named by its file name.
pub fn scan_apps(apps: &mut Vec<App>, walks: &Vec<Vec<WalkEntry>>) -> (res: Result<(), String>)
    requires
        forall|j: int| 0 <= j < walks@.len() ==> files_named(walk_view(#[trigger] walks@[j]@)),
    ensures
        res is Ok,
        apps_view(final(apps)@) == apps_view(old(apps)@) + apps_found_in(walks_view(walks@)),
{
    let ghost start = apps_view(apps@);
    let ghost all = walks_view(walks@);
    for j in 0..walks.len()
        invariant
            all == walks_view(walks@),
            forall|j: int| 0 <= j < walks@.len() ==> files_named(walk_view(#[trigger] walks@[j]@)),
            apps_view(apps@) =~= start + apps_found_in(all.take(j as int)),
    {
        let entries = &walks[j];
        let ghost w = walk_view(entries@);
        let ghost before = apps_view(apps@);
        assert(files_named(w));
        for i in 0..entries.len()
            invariant
                w == walk_view(entries@),
                files_named(w),
                apps_view(apps@) =~= before + apps_found(w.take(i as int)),
        {
            assert(w.take(i + 1).drop_last() =~= w.take(i as int));
            let entry = &entries[i];
            assert(w.take(i + 1).last() == entry@);
            let ghost prev = apps@;
            if entry.is_file {
                assert(w[i as int].is_file);
                let name = match &entry.file_name {
                    Some(n) => n.clone(),
                    None => String::new(),
                };
                let a = App { name, path: entry.path.clone() };
                apps.push(a);
                assert(apps_view(apps@) =~= apps_view(prev).push(a@));
            }
        }
        assert(w.take(entries@.len() as int) =~= w);
        assert(all.take(j + 1).drop_last() =~= all.take(j as int));
    }
    assert(all.take(walks@.len() as int) =~= all);
    Ok(())
}

/// The program that a file entry stands for.
pub open spec fn app_of(e: WalkEntryView) -> EntryView {
    EntryView { name: e.file_name.unwrap(), path: e.path }
}

/// Keeps the file entries of a walk.
pub open spec fn is_file_pred() -> spec_fn(WalkEntryView) -> bool {
    |e: WalkEntryView| e.is_file
}

/// Turns a file entry into its program.
pub open spec fn app_of_fn() -> spec_fn(WalkEntryView) -> EntryView {
    |e: WalkEntryView| app_of(e)
}

/// The programs found by a walk are its file entries, each once, in walk
/// order, named by their file names: as many programs as files, and every
/// file gives its program.
pub proof fn lemma_apps_are_files(entries: Seq<WalkEntryView>)
    ensures
        apps_found(entries) == entries.filter(is_file_pred()).map_values(app_of_fn()),
        apps_found(entries).len() == entries.filter(is_file_pred()).len(),
        forall|i: int|
            0 <= i < entries.len() && (#[trigger] entries[i]).is_file ==> apps_found(entries).contains(
                EntryView { name: entries[i].file_name.unwrap(), path: entries[i].path },
            ),
    decreases entries.len(),
{
    let f = entries.filter(is_file_pred());
    if entries.len() > 0 {
        lemma_apps_are_files(entries.drop_last());
        let g = entries.drop_last().filter(is_file_pred());
        reveal(Seq::filter);
        assert(f == if entries.last().is_file { g.push(entries.last()) } else { g });
        if entries.last().is_file {
            assert(g.push(entries.last()).map_values(app_of_fn()) =~= g.map_values(app_of_fn()).push(
                app_of(entries.last()),
            ));
        }
    } else {
        reveal(Seq::filter);
        assert(f =~= Seq::<WalkEntryView>::empty());
        assert(f.map_values(app_of_fn()) =~= Seq::<EntryView>::empty());
    }
    assert(apps_found(entries) =~= f.map_values(app_of_fn()));
    assert forall|i: int|
        0 <= i < entries.len() && (#[trigger] entries[i]).is_file implies apps_found(entries).contains(
            EntryView { name: entries[i].file_name.unwrap(), path: entries[i].path },
        ) by {
        entries.lemma_filter_contains(is_file_pred(), i);
        let k = choose|k: int| 0 <= k < f.len() && f[k] == entries[i];
        assert(f.map_values(app_of_fn())[k] == app_of(entries[i]));
    }
}

/// Every file of every walked directory gives a program, with its file name
/// and its path.
pub proof fn lemma_every_file_found(walks: Seq<Seq<WalkEntryView>>)
    ensures
        forall|j: int, i: int|
            0 <= j < walks.len() && 0 <= i < walks[j].len() && (#[trigger] walks[j][i]).is_file
                ==> apps_found_in(walks).contains(
                EntryView { name: walks[j][i].file_name.unwrap(), path: walks[j][i].path },
            ),
    decreases walks.len(),
{
    if walks.len() > 0 {
        lemma_every_file_found(walks.drop_last());
        lemma_apps_are_files(walks.last());
        let a = apps_found_in(walks.drop_last());
        let b = apps_found(walks.last());
        assert forall|j: int, i: int|
            0 <= j < walks.len() && 0 <= i < walks[j].len() && (#[trigger] walks[j][i]).is_file
                implies apps_found_in(walks).contains(
            EntryView { name: walks[j][i].file_name.unwrap(), path: walks[j][i].path },
        ) by {
            let x = EntryView { name: walks[j][i].file_name.unwrap(), path: walks[j][i].path };
            if j < walks.len() - 1 {
                assert(walks.drop_last()[j][i] == walks[j][i]);
                assert(a.contains(x));
                let k = choose|k: int| 0 <= k < a.len() && a[k] == x;
                assert((a + b)[k] == x);
            } else {
                assert(walks.last()[i] == walks[j][i]);
                assert(b.contains(x));
                let k = choose|k: int| 0 <= k < b.len() && b[k] == x;
                assert((a + b)[a.len() + k] == x);
            }
        }
    }
}

/// The name a project under `dir` gets is the rest of its path: the
/// directory followed by the name is the whole path.
pub proof fn lemma_project_name_is_rest(dir: Seq<char>, name: Seq<char>)
    ensures
        project_name(dir + name, dir) == name,
        dir + project_name(dir + name, dir) == dir + name,
{
    assert((dir + name).subrange(0, dir.len() as int) =~= dir);
    assert((dir + name).skip(dir.len() as int) =~= name);
}

/// The project that an entry stands for.
pub open spec fn project_of(e: WalkEntryView, dir: Seq<char>) -> EntryView {
    EntryView { name: project_name(e.path, dir), path: e.path }
}

/// Keeps the project entries of a walk.
pub open spec fn is_project_pred() -> spec_fn(WalkEntryView) -> bool {
    |e: WalkEntryView| is_project_entry(e)
}

/// The projects found by a walk are its directories other than the walked
/// one, each once, in walk order; a directory whose path is `dir` followed
/// by more is named by that rest, so that `dir` and the name make the path.
pub proof fn lemma_projects_are_subdirs(entries: Seq<WalkEntryView>, dir: Seq<char>)
    ensures
        projects_found(entries, dir) == entries.filter(is_project_pred()).map_values(
            |e: WalkEntryView| project_of(e, dir),
        ),
        forall|i: int|
            0 <= i < entries.len() && !(#[trigger] entries[i]).is_root && entries[i].is_dir
                && has_prefix(entries[i].path, dir) ==> projects_found(entries, dir).contains(
                EntryView { name: entries[i].path.skip(dir.len() as int), path: entries[i].path },
            ) && dir + entries[i].path.skip(dir.len() as int) == entries[i].path,
    decreases entries.len(),
{
    let pf = |e: WalkEntryView| project_of(e, dir);
    let f = entries.filter(is_project_pred());
    if entries.len() > 0 {
        lemma_projects_are_subdirs(entries.drop_last(), dir);
        let g = entries.drop_last().filter(is_project_pred());
        reveal(Seq::filter);
        assert(f == if is_project_entry(entries.last()) { g.push(entries.last()) } else { g });
        if is_project_entry(entries.last()) {
            assert(g.push(entries.last()).map_values(pf) =~= g.map_values(pf).push(
                project_of(entries.last(), dir),
            ));
        }
    } else {
        reveal(Seq::filter);
        assert(f =~= Seq::<WalkEntryView>::empty());
        assert(f.map_values(pf) =~= Seq::<EntryView>::empty());
    }
    assert(projects_found(entries, dir) =~= f.map_values(pf));
    assert forall|i: int|
        0 <= i < entries.len() && !(#[trigger] entries[i]).is_root && entries[i].is_dir
            && has_prefix(entries[i].path, dir) implies projects_found(entries, dir).contains(
        EntryView { name: entries[i].path.skip(dir.len() as int), path: entries[i].path },
    ) && dir + entries[i].path.skip(dir.len() as int) == entries[i].path by {
        entries.lemma_filter_contains(is_project_pred(), i);
        let k = choose|k: int| 0 <= k < f.len() && f[k] == entries[i];
        let p = entries[i].path;
        assert(p =~= p.subrange(0, dir.len() as int) + p.skip(dir.len() as int));
        assert(f.map_values(pf)[k] == project_of(entries[i], dir));
    }
}

} // verus!
