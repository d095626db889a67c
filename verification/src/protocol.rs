//! Messages exchanged between the popup and the daemon.
use vstd::prelude::*;

verus! {

/// A request that the popup sends to the daemon.
pub enum Request {
    /// Ask for the known projects only.
    GetProjects,
    /// Ask for the known projects and the installed programs.
    GetAll,
}

/// A project directory: its name relative to the projects directory and its full path.
pub struct ProjectDto {
    pub name: String,
    pub path: String,
}

/// The library's name for a project entry.
pub type Project = ProjectDto;

/// An installed program: its file name and its full path.
pub struct App {
    pub name: String,
    pub path: String,
}

/// What the daemon answers.
pub enum Response {
    Projects(Vec<ProjectDto>),
    All { projects: Vec<ProjectDto>, apps: Vec<App> },
    Error(String),
}

/// The mathematical value of a named path entry: its name and its path.
pub struct EntryView {
    pub name: Seq<char>,
    pub path: Seq<char>,
}

impl View for ProjectDto {
    type V = EntryView;

    open spec fn view(&self) -> EntryView {
        EntryView { name: self.name@, path: self.path@ }
    }
}

impl View for App {
    type V = EntryView;

    open spec fn view(&self) -> EntryView {
        EntryView { name: self.name@, path: self.path@ }
    }
}

impl Clone for ProjectDto {
    fn clone(&self) -> (res: Self)
        ensures
            res@ == self@,
    {
        ProjectDto { name: self.name.clone(), path: self.path.clone() }
    }
}

impl Clone for App {
    fn clone(&self) -> (res: Self)
        ensures
            res@ == self@,
    {
        App { name: self.name.clone(), path: self.path.clone() }
    }
}

/// The values of a list of projects.
pub open spec fn projects_view(s: Seq<ProjectDto>) -> Seq<EntryView> {
    s.map_values(|p: ProjectDto| p@)
}

/// The values of a list of programs.
pub open spec fn apps_view(s: Seq<App>) -> Seq<EntryView> {
    s.map_values(|a: App| a@)
}

/// The mathematical value of a response.
pub enum ResponseView {
    Projects(Seq<EntryView>),
    All { projects: Seq<EntryView>, apps: Seq<EntryView> },
    Error(Seq<char>),
}

impl View for Response {
    type V = ResponseView;

    open spec fn view(&self) -> ResponseView {
        match self {
            Response::Projects(p) => ResponseView::Projects(projects_view(p@)),
            Response::All { projects, apps } => ResponseView::All {
                projects: projects_view(projects@),
                apps: apps_view(apps@),
            },
            Response::Error(e) => ResponseView::Error(e@),
        }
    }
}

/// A copy of a list of projects.
pub fn copy_projects(v: &Vec<ProjectDto>) -> (res: Vec<ProjectDto>)
    ensures
        projects_view(res@) == projects_view(v@),
{
    let mut res: Vec<ProjectDto> = Vec::new();
    for i in 0..v.len()
        invariant
            projects_view(res@) =~= projects_view(v@).take(i as int),
    {
        res.push(v[i].clone());
        assert(projects_view(v@).take(i + 1) =~= projects_view(v@).take(i as int).push(
            v@[i as int]@,
        ));
    }
    assert(projects_view(v@).take(v@.len() as int) =~= projects_view(v@));
    res
}

/// A copy of a list of programs.
pub fn copy_apps(v: &Vec<App>) -> (res: Vec<App>)
    ensures
        apps_view(res@) == apps_view(v@),
{
    let mut res: Vec<App> = Vec::new();
    for i in 0..v.len()
        invariant
            apps_view(res@) =~= apps_view(v@).take(i as int),
    {
        res.push(v[i].clone());
        assert(apps_view(v@).take(i + 1) =~= apps_view(v@).take(i as int).push(v@[i as int]@));
    }
    assert(apps_view(v@).take(v@.len() as int) =~= apps_view(v@));
    res
}

/// The lists that a response carries, or its error message.
pub open spec fn lists_of(r: ResponseView) -> Result<(Seq<EntryView>, Seq<EntryView>), Seq<char>> {
    match r {
        ResponseView::Projects(p) => Ok((p, Seq::empty())),
        ResponseView::All { projects, apps } => Ok((projects, apps)),
        ResponseView::Error(e) => Err(e),
    }
}

impl Response {
    /// The lists that a response carries: both lists of `All`, the projects
    /// of `Projects` with no programs, and the message of `Error` as the error.
    pub fn into_lists(self) -> (res: Result<(Vec<ProjectDto>, Vec<App>), String>)
        ensures
            match res {
                Ok((ps, apps)) => lists_of(self@) == Ok::<_, Seq<char>>((projects_view(ps@), apps_view(apps@))),
                Err(msg) => lists_of(self@) == Err::<(Seq<EntryView>, Seq<EntryView>), _>(msg@),
            },
    {
        match self {
            Response::All { projects, apps } => Ok((projects, apps)),
            Response::Projects(projects) => {
                let apps: Vec<App> = Vec::new();
                assert(apps_view(apps@) =~= Seq::empty());
                Ok((projects, apps))
            },
            Response::Error(e) => Err(e),
        }
    }
}

} // verus!
