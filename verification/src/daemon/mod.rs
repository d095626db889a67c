//! The daemon's decisions: what a scan keeps, what a request is answered,
//! and which list a change on disk makes stale.
pub mod ipc;
pub mod scanner;
pub mod watch;

use vstd::prelude::*;

verus! {

/// Where the popup finds the daemon.
pub const SOCKET_PATH: &'static str = "/tmp/aooff.sock";

/// The directory that holds the projects of the user whose home is `home`.
pub fn projects_dir(home: &str) -> (res: String)
    ensures
        res@ == home@ + "/projects/"@,
{
    let mut s = String::from_str(home);
    s.append("/projects/");
    s
}

} // verus!
