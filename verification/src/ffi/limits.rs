//! FFI resource limits and usage tracking.

use vstd::prelude::*;
use crate::text::{append_decimal, decimal};

verus! {

/// Resource limits for FFI operations (`None`: unlimited).
#[derive(Debug, Clone)]
pub struct FfiLimits {
    pub max_bridge_nodes: Option<usize>,
    pub max_memory_bytes: Option<usize>,
    pub max_libraries: Option<usize>,
    pub max_pinned_callbacks: Option<usize>,
}

/// Current FFI resource usage.
#[derive(Debug, Clone)]
pub struct FfiUsage {
    pub bridge_nodes: usize,
    pub allocated_bytes: usize,
    pub library_count: usize,
    pub pinned_callbacks: usize,
}

/// The message of a count limit that was reached: `"<what> limit exceeded (<used>/<max>)"`.
pub open spec fn count_limit_message(what: Seq<char>, used: nat, max: nat) -> Seq<char> {
    what + " limit exceeded ("@ + decimal(used) + "/"@ + decimal(max) + ")"@
}

/// The message of the memory limit: `"FFI memory limit exceeded (<used>+<additional> > <max> bytes)"`.
pub open spec fn memory_limit_message(used: nat, additional: nat, max: nat) -> Seq<char> {
    "FFI memory limit exceeded ("@ + decimal(used) + "+"@ + decimal(additional) + " > "@ + decimal(max)
        + " bytes)"@
}

/// Checks a count against an optional limit: an error once `used >= max`.
pub open spec fn count_check(limit: Option<usize>, used: usize, what: Seq<char>) -> Result<(), Seq<char>> {
    match limit {
        Some(max) => if used >= max {
            Err(count_limit_message(what, used as nat, max as nat))
        } else {
            Ok(())
        },
        None => Ok(()),
    }
}

fn count_limit_error(what: &str, used: usize, max: usize) -> (s: String)
    ensures
        s@ == count_limit_message(what@, used as nat, max as nat),
{
    let mut s = String::from_str(what);
    s.append(" limit exceeded (");
    append_decimal(&mut s, used);
    s.append("/");
    append_decimal(&mut s, max);
    s.append(")");
    s
}

fn check_count(limit: Option<usize>, used: usize, what: &str) -> (r: Result<(), String>)
    ensures
        match (r, count_check(limit, used, what@)) {
            (Ok(()), Ok(())) => true,
            (Err(m), Err(sm)) => m@ == sm,
            _ => false,
        },
{
    if let Some(max) = limit {
        if used >= max {
            return Err(count_limit_error(what, used, max));
        }
    }
    Ok(())
}

impl FfiLimits {
    pub fn check_bridge_nodes(&self, usage: &FfiUsage) -> (r: Result<(), String>)
        ensures
            match (r, count_check(self.max_bridge_nodes, usage.bridge_nodes, "FFI bridge node"@)) {
                (Ok(()), Ok(())) => true,
                (Err(m), Err(sm)) => m@ == sm,
                _ => false,
            },
    {
        check_count(self.max_bridge_nodes, usage.bridge_nodes, "FFI bridge node")
    }

    /// An error when `allocated_bytes + additional` would exceed the memory limit.
    pub fn check_memory(&self, usage: &FfiUsage, additional: usize) -> (r: Result<(), String>)
        ensures
            r is Err <==> (self.max_memory_bytes matches Some(max) && usage.allocated_bytes + additional > max),
            r matches Err(m) ==> m@ == memory_limit_message(
                usage.allocated_bytes as nat,
                additional as nat,
                self.max_memory_bytes->0 as nat,
            ),
    {
        if let Some(max) = self.max_memory_bytes {
            if additional > max || usage.allocated_bytes > max - additional {
                let mut s = String::from_str("FFI memory limit exceeded (");
                append_decimal(&mut s, usage.allocated_bytes);
                s.append("+");
                append_decimal(&mut s, additional);
                s.append(" > ");
                append_decimal(&mut s, max);
                s.append(" bytes)");
                return Err(s);
            }
        }
        Ok(())
    }

    pub fn check_libraries(&self, usage: &FfiUsage) -> (r: Result<(), String>)
        ensures
            match (r, count_check(self.max_libraries, usage.library_count, "FFI library"@)) {
                (Ok(()), Ok(())) => true,
                (Err(m), Err(sm)) => m@ == sm,
                _ => false,
            },
    {
        check_count(self.max_libraries, usage.library_count, "FFI library")
    }

    pub fn check_pinned_callbacks(&self, usage: &FfiUsage) -> (r: Result<(), String>)
        ensures
            match (r, count_check(self.max_pinned_callbacks, usage.pinned_callbacks, "FFI pinned callback"@)) {
                (Ok(()), Ok(())) => true,
                (Err(m), Err(sm)) => m@ == sm,
                _ => false,
            },
    {
        check_count(self.max_pinned_callbacks, usage.pinned_callbacks, "FFI pinned callback")
    }
}

impl Default for FfiLimits {
    /// No limits at all.
    fn default() -> (r: Self)
        ensures
            r.max_bridge_nodes is None,
            r.max_memory_bytes is None,
            r.max_libraries is None,
            r.max_pinned_callbacks is None,
    {
        FfiLimits { max_bridge_nodes: None, max_memory_bytes: None, max_libraries: None, max_pinned_callbacks: None }
    }
}

impl Default for FfiUsage {
    /// Nothing used yet.
    fn default() -> (r: Self)
        ensures
            r.bridge_nodes == 0,
            r.allocated_bytes == 0,
            r.library_count == 0,
            r.pinned_callbacks == 0,
    {
        FfiUsage { bridge_nodes: 0, allocated_bytes: 0, library_count: 0, pinned_callbacks: 0 }
    }
}

} // verus!
