//! Where the task database lives.
use vstd::prelude::*;
use vstd::string::StrSliceExecFns;
use vstd::string::StringExecFns;
use crate::enums::OS;

verus! {

/// The database path inside a user's home directory, as `PathBuf::push`
/// joins `.config/tasker/` and `tasker.db` onto it.
pub open spec fn user_db_path(home: Seq<char>) -> Seq<char> {
    if home.len() == 0 || home.last() == '/' {
        home + ".config/tasker/tasker.db"@
    } else {
        home + "/.config/tasker/tasker.db"@
    }
}

/// Where the database lives: in the user's home on Linux, under `/etc/tasker`
/// for root on Linux, and under `./databases` otherwise.
pub open spec fn db_path(is_root: bool, os: OS, home: Option<Seq<char>>) -> Seq<char> {
    if !is_root && os == OS::Linux && home is Some {
        user_db_path(home->0)
    } else if is_root && os == OS::Linux {
        "/etc/tasker/tasker.db"@
    } else {
        "./databases/tasker.db"@
    }
}

/// The path of the task database, given whether the service runs as root,
/// the platform, and the user's home directory if known. (Creating the
/// directories is left to the caller.)
pub fn set_db_path(is_root: bool, os: OS, home: Option<String>) -> (p: String)
    ensures
        p@ == db_path(
            is_root,
            os,
            match home {
                Some(h) => Some(h@),
                None => None,
            },
        ),
{
    if !is_root {
        if os == OS::Linux {
            if let Some(home) = home {
                let n = home.as_str().unicode_len();
                if n == 0 || home.as_str().get_char(n - 1) == '/' {
                    return home.concat(".config/tasker/tasker.db");
                } else {
                    return home.concat("/.config/tasker/tasker.db");
                }
            }
        }
    } else if os == OS::Linux {
        return "/etc/tasker/tasker.db".to_owned();
    }
    "./databases/tasker.db".to_owned()
}

} // verus!
