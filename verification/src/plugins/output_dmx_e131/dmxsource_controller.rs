//! The decisions of the network sender, which runs on its own schedule: when
//! to open and close the network source, and which streams to end.
use vstd::prelude::*;

use super::interface::FrameCache;

verus! {

/// What the sender does with its network source before sending.
#[derive(Debug, Clone, Copy, PartialEq, Eq, Structural)]
pub enum SourceAction {
    /// Open a source: there are frames to send and none is open
    Open,
    /// Close the source: there is nothing left to send
    Close,
    /// Keep the source as it is
    Keep,
}

/// What the sender does with its network source, given the frame cache and
/// whether a source is open. Without a cache the source is left as it is.
pub fn source_action(cache: &FrameCache, source_open: bool) -> (r: SourceAction)
    ensures
        r == match *cache {
            None => SourceAction::Keep,
            Some(c) => if c.entries().len() > 0 && !source_open {
                SourceAction::Open
            } else if c.entries().len() == 0 && source_open {
                SourceAction::Close
            } else {
                SourceAction::Keep
            },
        },
{
    match cache {
        None => SourceAction::Keep,
        Some(c) => {
            if c.len() > 0 && !source_open {
                SourceAction::Open
            } else if c.len() == 0 && source_open {
                SourceAction::Close
            } else {
                SourceAction::Keep
            }
        },
    }
}

/// Holds of the network universes that are not in `current`.
pub open spec fn not_in(current: Seq<u16>) -> spec_fn(u16) -> bool {
    |u: u16| !current.contains(u)
}

/// The streams to end: the universes sent last time that are not sent now,
/// in the order they were sent.
pub fn streams_to_terminate(previous: &Vec<u16>, current: &Vec<u16>) -> (r: Vec<u16>)
    ensures
        r@ == previous@.filter(not_in(current@)),
{
    let mut r: Vec<u16> = Vec::new();
    let mut i: usize = 0;
    assert(previous@.take(0).filter(not_in(current@)) =~= Seq::<u16>::empty()) by {
        reveal(Seq::filter);
    }
    while i < previous.len()
        invariant
            i <= previous@.len(),
            r@ == previous@.take(i as int).filter(not_in(current@)),
        decreases previous@.len() - i,
    {
        let u = previous[i];
        proof {
            assert(previous@.take(i + 1) =~= previous@.take(i as int).push(u));
            previous@.take(i as int).lemma_filter_push(u, not_in(current@));
        }
        let mut sent_now = false;
        let mut j: usize = 0;
        while j < current.len()
            invariant
                j <= current@.len(),
                sent_now == exists|k: int| 0 <= k < j && current@[k] == u,
            decreases current@.len() - j,
        {
            if current[j] == u {
                sent_now = true;
            }
            j = j + 1;
        }
        if !sent_now {
            r.push(u);
        }
        i = i + 1;
    }
    assert(previous@.take(previous@.len() as int) =~= previous@);
    r
}

} // verus!
