//! Verified core of the Intel TDX quote generation service tools: the PCK
//! certificate cache format, platform data handling, and the decisions of the
//! Kubernetes operator that deploys the service.
use vstd::prelude::*;

pub mod clock;
pub mod operator;
pub mod pck;
pub mod text;

verus! {

} // verus!
