//! Browser capability flags.
//!
//! The host mapping library publishes most browser flags itself and they
//! pass through unchanged. The one flag decided here is Edge detection:
//! whether the user agent string contains `"edg"` in any letter case.

use vstd::prelude::*;

verus! {

/// Lowercase `b` if it is an ASCII capital letter.
pub open spec fn lower_byte(b: u8) -> u8 {
    if 65 <= b <= 90 {
        (b + 32) as u8
    } else {
        b
    }
}

/// The bytes at position `j` of `s` read `"edg"` after ASCII lowercasing.
pub open spec fn edg_at(s: Seq<u8>, j: int) -> bool {
    &&& j + 3 <= s.len()
    &&& lower_byte(s[j]) == 101
    &&& lower_byte(s[j + 1]) == 100
    &&& lower_byte(s[j + 2]) == 103
}

/// The bytes `"edg"` appear somewhere in `s`, in any letter case.
pub open spec fn contains_edg(s: Seq<u8>) -> bool {
    exists|j: int| 0 <= j && edg_at(s, j)
}

/// Lowercase an ASCII capital letter byte.
fn lower_ascii(b: u8) -> (r: u8)
    ensures
        r == lower_byte(b),
{
    if b >= 65 && b <= 90 {
        b + 32
    } else {
        b
    }
}

/// Whether `agent` names the Edge browser: it contains `"edg"` in any
/// letter case.
pub fn is_edge_user_agent(agent: &Vec<u8>) -> (r: bool)
    ensures
        r == contains_edg(agent@),
{
    let n = agent.len();
    if n < 3 {
        return false;
    }
    let mut i: usize = 0;
    while i < n - 2
        invariant
            n == agent@.len(),
            3 <= n,
            i <= n - 2,
            forall|j: int| 0 <= j < i ==> !edg_at(agent@, j),
        decreases n - 2 - i,
    {
        let b0 = lower_ascii(agent[i]);
        let b1 = lower_ascii(agent[i + 1]);
        let b2 = lower_ascii(agent[i + 2]);
        if b0 == 101 && b1 == 100 && b2 == 103 {
            proof {
                assert(edg_at(agent@, i as int));
            }
            return true;
        }
        i += 1;
    }
    proof {
        assert forall|j: int| 0 <= j implies !edg_at(agent@, j) by {
            if j + 3 <= agent@.len() {
                assert(j < n - 2);
            }
        }
    }
    false
}

/// Browser details, as the host mapping library publishes them, plus Edge
/// detection decided from the user agent.
#[derive(Clone, Copy, Debug, PartialEq, Eq, Structural)]
pub struct Browser {
    /// Browser is Chrome.
    pub chrome: bool,
    /// Browser is Safari.
    pub safari: bool,
    /// Browser runs on a mobile device.
    pub mobile: bool,
    /// Browser supports pointer events.
    pub pointer: bool,
    /// Browser supports touch or pointer events.
    pub touch: bool,
    /// Browser supports touch events.
    pub touch_native: bool,
    /// Browser runs on a high-resolution screen, or zoom is over 100%.
    pub retina: bool,
    /// Browser runs on a Mac platform.
    pub mac: bool,
    /// Browser runs on a Linux platform.
    pub linux: bool,
    /// Browser is Edge.
    pub edge: bool,
}

impl Browser {
    /// Assemble the flags the host publishes, deciding the Edge flag from
    /// the user agent bytes.
    pub fn from_flags(
        chrome: bool,
        safari: bool,
        mobile: bool,
        pointer: bool,
        touch: bool,
        touch_native: bool,
        retina: bool,
        mac: bool,
        linux: bool,
        agent: &Vec<u8>,
    ) -> (r: Browser)
        ensures
            r == (Browser {
                chrome,
                safari,
                mobile,
                pointer,
                touch,
                touch_native,
                retina,
                mac,
                linux,
                edge: contains_edg(agent@),
            }),
    {
        let edge = is_edge_user_agent(agent);
        Browser {
            chrome,
            safari,
            mobile,
            pointer,
            touch,
            touch_native,
            retina,
            mac,
            linux,
            edge,
        }
    }
}

} // verus!
