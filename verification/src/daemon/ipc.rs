//! What the daemon answers a request.
use vstd::prelude::*;

use crate::protocol::{
    apps_view, copy_apps, copy_projects, lists_of, projects_view, App, EntryView, Project, Request,
    Response, ResponseView,
};

verus! {

/// The answer to `request` when the daemon knows `projects` and `apps`:
/// the projects for `GetProjects`, both lists for `GetAll`.
pub open spec fn answer(request: Request, projects: Seq<EntryView>, apps: Seq<EntryView>) -> ResponseView {
    match request {
        Request::GetProjects => ResponseView::Projects(projects),
        Request::GetAll => ResponseView::All { projects, apps },
    }
}

/// The answer to a request, given the current lists.
pub fn respond(request: &Request, projects: &Vec<Project>, apps: &Vec<App>) -> (res: Response)
    ensures
        res@ == answer(*request, projects_view(projects@), apps_view(apps@)),
{
    match request {
        Request::GetProjects => Response::Projects(copy_projects(projects)),
        Request::GetAll => Response::All { projects: copy_projects(projects), apps: copy_apps(apps) },
    }
}

/// The answer to a request that could not be read.
pub fn error_response(msg: &str) -> (res: Response)
    ensures
        res@ == ResponseView::Error(msg@),
{
    Response::Error(String::from_str(msg))
}

/// What the popup takes from an answer is what the daemon knew: both lists
/// for `GetAll`, the projects and no programs for `GetProjects`.
pub proof fn lemma_answer_read_back(request: Request, projects: Seq<EntryView>, apps: Seq<EntryView>)
    ensures
        lists_of(answer(request, projects, apps)) == match request {
            Request::GetAll => Ok::<_, Seq<char>>((projects, apps)),
            Request::GetProjects => Ok::<_, Seq<char>>((projects, Seq::<EntryView>::empty())),
        },
{
}

} // verus!
