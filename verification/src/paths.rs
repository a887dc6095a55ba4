//! Where memocap keeps its files: the home directory, the Codex home, the
//! data directory with the database, and the installed binary.
use vstd::prelude::*;

use crate::text::{push_char, push_str};

verus! {

/// `Path::join` with a relative or absolute name, on Unix: an absolute name
/// replaces the base; otherwise a `/` separates the two unless the base is
/// empty or already ends with one.
pub open spec fn path_join(base: Seq<char>, name: Seq<char>) -> Seq<char> {
    if name.len() > 0 && name[0] == '/' {
        name
    } else if base.len() == 0 || base.last() == '/' {
        base + name
    } else {
        base + seq!['/'] + name
    }
}

/// Joins `name` onto `base` as a path.
pub fn join_path(base: &str, name: &str) -> (r: String)
    ensures
        r@ == path_join(base@, name@),
{
    let n = name.unicode_len();
    let mut out = String::new();
    if n > 0 && name.get_char(0) == '/' {
        push_str(&mut out, name);
        return out;
    }
    let m = base.unicode_len();
    push_str(&mut out, base);
    if m > 0 && base.get_char(m - 1) != '/' {
        push_char(&mut out, '/');
    }
    push_str(&mut out, name);
    out
}

/// The files memocap reads and writes, as paths.
pub struct Paths {
    pub home: String,
    pub codex_home: String,
    pub data_dir: String,
    pub database: String,
    pub installed_binary: String,
}

/// Why the paths cannot be found.
#[derive(Debug, Clone, Copy, PartialEq, Eq)]
pub enum PathsError {
    /// Neither `MEMOCAP_HOME` nor the user's home directory is known.
    HomeUnknown,
}

impl PathsError {
    pub fn message(&self) -> (r: String)
        ensures
            r@ == "无法确定用户目录；请设置 MEMOCAP_HOME"@,
    {
        "无法确定用户目录；请设置 MEMOCAP_HOME".to_owned()
    }
}

/// A setting that is present and not empty.
pub open spec fn present(value: Option<Seq<char>>) -> bool {
    value is Some && value->0.len() > 0
}

/// The home directory: `MEMOCAP_HOME` when it is set and not empty, else
/// the user's home directory.
pub open spec fn home_of(home_env: Option<Seq<char>>, home_dir: Option<Seq<char>>) -> Option<Seq<char>> {
    if present(home_env) {
        home_env
    } else {
        home_dir
    }
}

/// The data directory: `MEMOCAP_DATA_DIR` when it is set and not empty,
/// else `.memocap` under the home directory.
pub open spec fn data_dir_of(home: Seq<char>, data_dir_env: Option<Seq<char>>) -> Seq<char> {
    if present(data_dir_env) {
        data_dir_env->0
    } else {
        path_join(home, ".memocap"@)
    }
}

pub open spec fn opt_chars(value: Option<String>) -> Option<Seq<char>> {
    match value {
        Some(s) => Some(s@),
        None => None,
    }
}

impl Paths {
    /// The paths are those under `home` and the data directory: the Codex
    /// home `.codex` with the binary in its `bin`, and the database
    /// `memocap.db` in the data directory.
    pub open spec fn laid_out(&self, home: Seq<char>, data_dir: Seq<char>) -> bool {
        &&& self.home@ == home
        &&& self.codex_home@ == path_join(home, ".codex"@)
        &&& self.data_dir@ == data_dir
        &&& self.database@ == path_join(data_dir, "memocap.db"@)
        &&& self.installed_binary@ == path_join(path_join(path_join(home, ".codex"@), "bin"@), "memocap"@)
    }

    /// Lays the paths out from the environment's settings and the user's
    /// home directory, as read by the caller.
    pub fn locate(home_env: Option<String>, home_dir: Option<String>, data_dir_env: Option<String>) -> (r: Result<Paths, PathsError>)
        ensures
            home_of(opt_chars(home_env), opt_chars(home_dir)) is None <==> r is Err,
            r matches Ok(p) ==> p.laid_out(
                home_of(opt_chars(home_env), opt_chars(home_dir))->0,
                data_dir_of(home_of(opt_chars(home_env), opt_chars(home_dir))->0, opt_chars(data_dir_env)),
            ),
    {
        let home = match home_env {
            Some(h) if h.unicode_len() > 0 => h,
            _ => match home_dir {
                Some(h) => h,
                None => return Err(PathsError::HomeUnknown),
            },
        };
        let data_dir = match data_dir_env {
            Some(d) if d.unicode_len() > 0 => d,
            _ => join_path(home.as_str(), ".memocap"),
        };
        let codex_home = join_path(home.as_str(), ".codex");
        let bin = join_path(codex_home.as_str(), "bin");
        let installed_binary = join_path(bin.as_str(), "memocap");
        let database = join_path(data_dir.as_str(), "memocap.db");
        Ok(Paths { home, codex_home, data_dir, database, installed_binary })
    }
}

} // verus!
