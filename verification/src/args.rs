//! Launch modes the surrounding application can be started in.

use vstd::prelude::*;

verus! {

/// How the process participates in a match: hosting both sides, only the
/// relay server, or only a client, each optionally with a fixed client id.
#[derive(PartialEq, Eq, Structural, Debug, Clone, Copy)]
pub enum Args {
    ClientAndServer { client_id: Option<u64> },
    Server,
    Client { client_id: Option<u64> },
}

} // verus!
