//! Output levels and input gains: which channel a setting is for.

use vstd::prelude::*;

verus! {

/// Which channel a level or gain setting applies to.
#[derive(Debug, Clone, Copy, PartialEq, Eq)]
pub enum Channel {
    /// Every channel at once, which Bela spells as a negative channel.
    All,
    /// One channel, counted from 0.
    One(usize),
}

/// The C `int` libbela takes for a channel: -1 for every channel, the
/// number itself where it fits, and `i32::MAX` where it does not, so that
/// a channel too large never arrives as a request for every channel.
pub open spec fn spec_channel_c_int(channel: Channel) -> i32 {
    match channel {
        Channel::All => -1i32,
        Channel::One(n) => if n <= i32::MAX { n as i32 } else { i32::MAX as i32 },
    }
}

impl Channel {
    /// The C `int` libbela takes for this channel.
    pub fn to_c_int(self) -> (raw: i32)
        ensures
            raw == spec_channel_c_int(self),
            self is One ==> raw >= 0,
    {
        match self {
            Self::All => -1,
            Self::One(channel) => if channel <= i32::MAX as usize {
                channel as i32
            } else {
                i32::MAX
            },
        }
    }
}

} // verus!
