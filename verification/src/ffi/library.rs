//! Library name resolution for dynamic loading.

use vstd::prelude::*;
use crate::text::{str_contains_char, str_starts_with};

verus! {

/// The operating system family whose naming conventions apply.
#[derive(Debug, Clone, Copy, PartialEq, Eq, Structural)]
pub enum Platform {
    Linux,
    MacOs,
    Windows,
    Other,
}

/// `name` is an explicit path rather than a bare library name.
pub open spec fn is_explicit_path(name: Seq<char>) -> bool {
    name.contains('/') || name.contains('\\') || (name.len() > 0 && name[0] == '.')
}

/// The file names tried, in order, when loading library `name`.
pub open spec fn library_candidates(name: Seq<char>, platform: Platform) -> Seq<Seq<char>> {
    if is_explicit_path(name) {
        seq![name]
    } else {
        match platform {
            Platform::Linux => seq!["lib"@ + name + ".so.6"@, "lib"@ + name + ".so"@, name + ".so"@, name],
            Platform::MacOs => seq!["lib"@ + name + ".dylib"@, name + ".dylib"@, name],
            Platform::Windows => seq![name + ".dll"@, name],
            Platform::Other => seq![name],
        }
    }
}

fn joined(a: &str, b: &str, c: &str) -> (s: String)
    ensures
        s@ == a@ + b@ + c@,
{
    let mut s = String::from_str(a);
    s.append(b);
    s.append(c);
    s
}

/// Resolve a library name to candidate paths, following the platform's
/// conventions; versioned names (e.g. `libc.so.6`) come first.
pub fn resolve_library_name(name: &str, platform: Platform) -> (candidates: Vec<String>)
    ensures
        candidates@.len() == library_candidates(name@, platform).len(),
        forall|i: int| 0 <= i < candidates@.len() ==> #[trigger] candidates@[i]@ == library_candidates(name@, platform)[i],
{
    let starts_dot = str_starts_with(name, ".");
    proof {
        reveal_strlit(".");
        if name@.len() > 0 {
            assert(name@.subrange(0, 1)[0] == name@[0]);
        }
    }
    if str_contains_char(name, '/') || str_contains_char(name, '\\') || starts_dot {
        let mut v = Vec::new();
        v.push(String::from_str(name));
        return v;
    }
    let mut candidates: Vec<String> = Vec::new();
    match platform {
        Platform::Linux => {
            candidates.push(joined("lib", name, ".so.6"));
            candidates.push(joined("lib", name, ".so"));
            candidates.push(joined("", name, ".so"));
        },
        Platform::MacOs => {
            candidates.push(joined("lib", name, ".dylib"));
            candidates.push(joined("", name, ".dylib"));
        },
        Platform::Windows => {
            candidates.push(joined("", name, ".dll"));
        },
        Platform::Other => {},
    }
    candidates.push(String::from_str(name));
    proof {
        reveal_strlit("");
        reveal_strlit(".");
        assert(""@ + name@ + ".so"@ =~= name@ + ".so"@);
        assert(""@ + name@ + ".dylib"@ =~= name@ + ".dylib"@);
        assert(""@ + name@ + ".dll"@ =~= name@ + ".dll"@);
        if name@.len() > 0 && name@[0] == '.' {
            assert(name@.subrange(0, 1) =~= "."@);
        }
        assert(!is_explicit_path(name@));
    }
    candidates
}

} // verus!
