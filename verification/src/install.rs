//! Where `seer install` puts the executable.
use vstd::prelude::*;
use crate::paths::{join, join_spec};
use crate::text::{chars_of, string_from};

verus! {

/// The install directory on Unix-like systems: `$HOME/.local/bin` when writable,
/// else `/usr/local/bin` when writable, else `$HOME/.local/bin` (to be created);
/// `/usr/local/bin` where `HOME` is not set.
pub open spec fn unix_install_dir(home: Option<Seq<char>>, local_bin_writable: bool, usr_local_writable: bool) -> Seq<char> {
    match home {
        Some(h) => {
            let local_bin = join_spec(join_spec(h, ".local"@), "bin"@);
            if local_bin_writable {
                local_bin
            } else if usr_local_writable {
                "/usr/local/bin"@
            } else {
                local_bin
            }
        },
        None => "/usr/local/bin"@,
    }
}

/// The user's `.local/bin` directory under a home directory.
pub fn local_bin_dir(home: &str) -> (r: String)
    ensures
        r@ == join_spec(join_spec(home@, ".local"@), "bin"@),
{
    let a = join(home, ".local");
    join(a.as_str(), "bin")
}

/// The install directory on Unix-like systems, given `HOME` and which candidate
/// directories are writable by their owner.
pub fn unix_install_target_dir(home: Option<&str>, local_bin_writable: bool, usr_local_writable: bool) -> (r: String)
    ensures
        r@ == unix_install_dir(
            match home {
                Some(h) => Some(h@),
                None => None,
            },
            local_bin_writable,
            usr_local_writable,
        ),
{
    match home {
        Some(h) => {
            let local_bin = local_bin_dir(h);
            if local_bin_writable {
                local_bin
            } else if usr_local_writable {
                string_from(&chars_of("/usr/local/bin"))
            } else {
                local_bin
            }
        },
        None => string_from(&chars_of("/usr/local/bin")),
    }
}

/// The install directory on Windows: `.cargo\bin` under the home directory.
pub fn windows_install_target_dir(home: &str) -> (r: String)
    ensures
        r@ == join_spec(join_spec(home@, ".cargo"@), "bin"@),
{
    let a = join(home, ".cargo");
    join(a.as_str(), "bin")
}

/// Whether Unix permission bits let the owner write.
pub fn owner_writable(mode: u32) -> (r: bool)
    ensures
        r == (mode & 0o200 != 0),
{
    mode & 0o200 != 0
}

} // verus!
