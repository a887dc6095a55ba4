//! The hosts that memocap registers with officially.
use vstd::prelude::*;

verus! {

/// Official OpenCode plugin registration command.
pub const OPENCODE_INSTALL: &'static str = "opencode plugin @lyy-gh/memocap";

/// The official host registrations: OpenCode's alone.
pub fn official_hosts() -> (r: [&'static str; 1])
    ensures
        r@ == seq![OPENCODE_INSTALL],
{
    [OPENCODE_INSTALL]
}

} // verus!
