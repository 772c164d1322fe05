//! Time-based identifiers.

use vstd::prelude::*;

use crate::clock::now_nanos;
use crate::text::{append_str, decimal, u128_to_string};

verus! {

/// `"{prefix}-{nanos}"` where `nanos` is the clock reading in nanoseconds since the epoch.
pub fn new_id(prefix: &str) -> (r: String)
    ensures
        exists|n: nat| r@ == prefix@ + "-"@ + #[trigger] decimal(n),
{
    let n = now_nanos();
    let mut s = String::from_str(prefix);
    append_str(&mut s, "-");
    let d = u128_to_string(n);
    append_str(&mut s, d.as_str());
    s
}

} // verus!
