use aooff::daemon::ipc::{error_response, respond};
use aooff::daemon::scanner::{app_dirs, scan_apps, scan_projects, WalkEntry};
use aooff::daemon::watch::{rescan_for, FsChange, Rescan};
use aooff::daemon::{projects_dir, SOCKET_PATH};
use aooff::protocol::{App, ProjectDto, Request, Response};

fn entry(path: &str, name: Option<&str>, is_dir: bool, is_root: bool) -> WalkEntry {
    WalkEntry {
        path: path.to_string(),
        file_name: name.map(|n| n.to_string()),
        is_dir,
        is_file: !is_dir,
        is_root,
    }
}

#[test]
fn projects_dir_is_under_home() {
    assert_eq!(projects_dir("/home/u"), "/home/u/projects/");
    assert_eq!(SOCKET_PATH, "/tmp/aooff.sock");
}

#[test]
fn scan_projects_missing_dir_fails() {
    let mut ps: Vec<ProjectDto> = Vec::new();
    let r = scan_projects(&mut ps, "/home/u/projects/", None);
    assert_eq!(r, Err("Projects directory not found".to_string()));
    assert!(ps.is_empty());
}

#[test]
fn scan_projects_keeps_subdirectories() {
    let dir = "/home/u/projects/";
    let walk = vec![
        entry("/home/u/projects/", Some("projects"), true, true),
        entry("/home/u/projects/aooff", Some("aooff"), true, false),
        entry("/home/u/projects/readme.md", Some("readme.md"), false, false),
        entry("/elsewhere/x", Some("x"), true, false),
    ];
    let mut ps = vec![ProjectDto { name: "old".to_string(), path: "/old".to_string() }];
    assert_eq!(scan_projects(&mut ps, dir, Some(&walk)), Ok(()));
    let got: Vec<(String, String)> = ps.iter().map(|p| (p.name.clone(), p.path.clone())).collect();
    assert_eq!(
        got,
        vec![
            ("old".to_string(), "/old".to_string()),
            ("aooff".to_string(), "/home/u/projects/aooff".to_string()),
            ("/elsewhere/x".to_string(), "/elsewhere/x".to_string()),
        ]
    );
}

#[test]
fn scan_apps_keeps_files_of_every_directory() {
    let walks = vec![
        vec![entry("/usr/bin", Some("bin"), true, true), entry("/usr/bin/ls", Some("ls"), false, false)],
        vec![entry("/bin", Some("bin"), true, true), entry("/bin/sh", Some("sh"), false, false)],
    ];
    let mut apps: Vec<App> = Vec::new();
    assert_eq!(scan_apps(&mut apps, &walks), Ok(()));
    let got: Vec<(String, String)> = apps.iter().map(|a| (a.name.clone(), a.path.clone())).collect();
    assert_eq!(
        got,
        vec![("ls".to_string(), "/usr/bin/ls".to_string()), ("sh".to_string(), "/bin/sh".to_string())]
    );
    assert_eq!(app_dirs(), vec!["/usr/bin", "/bin"]);
}

#[test]
fn respond_to_each_request() {
    let ps = vec![ProjectDto { name: "a".to_string(), path: "/p/a".to_string() }];
    let apps = vec![App { name: "ls".to_string(), path: "/bin/ls".to_string() }];
    match respond(&Request::GetProjects, &ps, &apps) {
        Response::Projects(p) => {
            assert_eq!(p.len(), 1);
            assert_eq!(p[0].path, "/p/a");
        }
        _ => panic!("expected projects"),
    }
    match respond(&Request::GetAll, &ps, &apps) {
        Response::All { projects, apps } => {
            assert_eq!(projects[0].name, "a");
            assert_eq!(apps[0].name, "ls");
        }
        _ => panic!("expected both lists"),
    }
    match error_response("bad request") {
        Response::Error(e) => assert_eq!(e, "bad request"),
        _ => panic!("expected an error"),
    }
}

#[test]
fn response_into_lists() {
    let ps = vec![ProjectDto { name: "a".to_string(), path: "/p/a".to_string() }];
    let (p, a) = Response::Projects(ps).into_lists().unwrap();
    assert_eq!(p.len(), 1);
    assert!(a.is_empty());
    let (p, a) = Response::All {
        projects: vec![],
        apps: vec![App { name: "ls".to_string(), path: "/bin/ls".to_string() }],
    }
    .into_lists()
    .unwrap();
    assert!(p.is_empty());
    assert_eq!(a[0].path, "/bin/ls");
    assert_eq!(Response::Error("down".to_string()).into_lists().err(), Some("down".to_string()));
}

#[test]
fn rescan_decisions() {
    let dir = "/home/u/projects/";
    let inside = vec!["/usr/bin/vim".to_string(), "/home/u/projects/new".to_string()];
    assert!(matches!(rescan_for(&FsChange::Create, &inside, dir), Rescan::Projects));
    let outside = vec!["/home/u/projectsX/new".to_string()];
    assert!(matches!(rescan_for(&FsChange::Remove, &outside, dir), Rescan::Apps));
    assert!(matches!(rescan_for(&FsChange::Modify, &vec![], dir), Rescan::Apps));
    assert!(matches!(rescan_for(&FsChange::Other, &inside, dir), Rescan::Nothing));
}
