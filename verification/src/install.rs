//! Where the managed rule block goes, and what `install` and `status` report.
use vstd::prelude::*;

use crate::paths::{join_path, path_join, Paths};

verus! {

/// What an install, or a status check, reports.
pub struct InstallStatus {
    pub binary: String,
    pub database: String,
    pub agents_path: String,
    pub configured: bool,
}

/// The global `AGENTS.md` sits in the Codex home.
pub fn global_agents_path(paths: &Paths) -> (r: String)
    ensures
        r@ == path_join(paths.codex_home@, "AGENTS.md"@),
{
    join_path(paths.codex_home.as_str(), "AGENTS.md")
}

/// The `AGENTS.md` that install, uninstall and status act on: the global one,
/// or the one in the current directory.
pub fn agents_path(paths: &Paths, global: bool, current_dir: &str) -> (r: String)
    ensures
        global ==> r@ == path_join(paths.codex_home@, "AGENTS.md"@),
        !global ==> r@ == path_join(current_dir@, "AGENTS.md"@),
{
    if global {
        global_agents_path(paths)
    } else {
        join_path(current_dir, "AGENTS.md")
    }
}

/// The report for the chosen `AGENTS.md`: the installed binary, the
/// database, the file, and whether it holds the managed block.
pub fn status(paths: &Paths, global: bool, current_dir: &str, configured: bool) -> (r: InstallStatus)
    ensures
        r.binary@ == paths.installed_binary@,
        r.database@ == paths.database@,
        global ==> r.agents_path@ == path_join(paths.codex_home@, "AGENTS.md"@),
        !global ==> r.agents_path@ == path_join(current_dir@, "AGENTS.md"@),
        r.configured == configured,
{
    InstallStatus {
        binary: paths.installed_binary.clone(),
        database: paths.database.clone(),
        agents_path: agents_path(paths, global, current_dir),
        configured,
    }
}

} // verus!
