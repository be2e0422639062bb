//! The MediaTek DVFSRC actuator: whether it is usable, which operating
//! performance point (OPP) it may be asked for, and when a request has to be
//! written.

use vstd::prelude::*;
use crate::text::{opt_view, parse_in_range, parse_u32, trim, trimmed};

verus! {

/// The number of OPP levels that the contents of `dvfsrc_num_opps` give:
/// the `u32` it holds, or zero.
pub open spec fn opp_count_of(text: Option<Seq<char>>) -> u32 {
    let p = parse_in_range(trimmed(text->0), false, 0, u32::MAX as int);
    if text is Some && p is Some {
        p->0 as u32
    } else {
        0
    }
}

/// The DVFSRC actuator: OPP 0 is full performance, higher indices are
/// slower, up to `opp_count - 1`.
pub struct DvfsrcActuator {
    pub available: bool,
    pub opp_count: u32,
    pub last_opp: Option<u32>,
}

impl DvfsrcActuator {
    /// The actuator as found: usable only where its request node exists and
    /// its OPP table (`num_opps_text`, `None` where it could not be read)
    /// lists at least one level.
    pub fn new(request_node_exists: bool, num_opps_text: Option<&str>) -> (r: Self)
        ensures
            r.last_opp is None,
            r.opp_count == if request_node_exists {
                opp_count_of(opt_view(num_opps_text))
            } else {
                0
            },
            r.available == (r.opp_count > 0),
    {
        if !request_node_exists {
            return DvfsrcActuator { available: false, opp_count: 0, last_opp: None };
        }
        let opp_count = match num_opps_text {
            Some(t) => match parse_u32(trim(t)) {
                Some(v) => v,
                None => 0,
            },
            None => 0,
        };
        if opp_count == 0 {
            return DvfsrcActuator { available: false, opp_count: 0, last_opp: None };
        }
        DvfsrcActuator { available: true, opp_count, last_opp: None }
    }

    /// The OPP index `idx` capped at the slowest level; zero where the table
    /// is empty.
    pub fn cap_opp(&self, idx: u32) -> (r: u32)
        ensures
            r == if self.opp_count == 0 {
                0
            } else if idx < self.opp_count {
                idx
            } else {
                (self.opp_count - 1) as u32
            },
    {
        if self.opp_count == 0 {
            return 0;
        }
        if idx < self.opp_count {
            idx
        } else {
            self.opp_count - 1
        }
    }

    /// Whether OPP `opp` has to be written: the actuator is usable and `opp`
    /// differs from the last level written.
    pub fn needs_write(&self, opp: u32) -> (r: bool)
        ensures
            r == (self.available && self.last_opp != Some(opp)),
    {
        if !self.available {
            return false;
        }
        match self.last_opp {
            Some(last) => last != opp,
            None => true,
        }
    }

    /// Records that OPP `opp` was written.
    pub fn record_write(&mut self, opp: u32)
        ensures
            final(self).last_opp == Some(opp),
            final(self).available == old(self).available,
            final(self).opp_count == old(self).opp_count,
    {
        self.last_opp = Some(opp);
    }
}

/// Once an OPP has been written, asking for the same OPP again writes
/// nothing.
pub proof fn lemma_no_repeated_write(a: DvfsrcActuator, opp: u32)
    requires
        a.last_opp == Some(opp),
    ensures
        !(a.available && a.last_opp != Some(opp)),
{
}

} // verus!
