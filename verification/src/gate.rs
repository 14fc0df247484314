//! The switch that allows talking to the real upstream login and video services.

use vstd::prelude::*;
use crate::ids::same_text;

verus! {

/// Name of the environment variable that must be exactly `1` to allow real protocol access.
pub const REAL_PROTOCOL_ENV: &'static str = "SJTU_REAL_PROTOCOL_TEST";

/// Real protocol access was not switched on.
#[derive(Debug, Clone, Copy, PartialEq, Eq, Structural)]
pub struct RealProtocolDisabled;

/// Whether the switch's value turns real protocol access on: only exactly `1` does.
pub fn is_real_protocol_enabled(value: Option<&str>) -> (r: bool)
    ensures
        r == (value matches Some(v) && v@ == "1"@),
{
    match value {
        Some(v) => same_text(v, "1"),
        None => false,
    }
}

/// Refuses unless the switch's value is exactly `1`.
pub fn ensure_real_protocol_enabled(value: Option<&str>) -> (r: Result<(), RealProtocolDisabled>)
    ensures
        r is Ok <==> (value matches Some(v) && v@ == "1"@),
{
    if is_real_protocol_enabled(value) {
        Ok(())
    } else {
        Err(RealProtocolDisabled)
    }
}

} // verus!
