//! What the rclone client sends about itself.

use vstd::prelude::*;

verus! {

/// `grrr@`
pub open spec fn agent_prefix() -> Seq<char> {
    seq!['g', 'r', 'r', 'r', '@']
}

/// The user agent of the rclone client: `grrr@<version>`.
pub fn get_user_agent(version: &str) -> (r: String)
    ensures
        r@ == agent_prefix() + version@,
{
    let mut r = String::from_str("grrr@");
    proof {
        reveal_strlit("grrr@");
    }
    r.append(version);
    r
}

} // verus!
