// A runtime core for hosting several pages on one render surface: the page registry, the
// per-page mailboxes, the shell's lifecycle decisions and the surface size they configure.

use vstd::prelude::*;

pub mod channel;
pub mod page;
pub mod shell;
pub mod state;

verus! {

} // verus!
