use vstd::prelude::*;
use std::sync::Arc;
use std::sync::mpsc::Sender;
use crate::channel::send_frame;

verus! {

/// Length in bytes of a link-layer frame header.
pub const ETHER_HEADER_LEN: usize = 14;

/// What slice of each inbound frame a module wants delivered: nothing,
/// the whole frame, the frame header only, or the payload only. The
/// non-empty choices carry the producer end of the module's delivery
/// channel.
pub enum PackFilter {
    Closed,
    Entire(Sender<Arc<Vec<u8>>>),
    EtherFrame(Sender<Arc<Vec<u8>>>),
    Payload(Sender<Arc<Vec<u8>>>),
}

impl PackFilter {
    pub open spec fn is_closed(&self) -> bool {
        self matches PackFilter::Closed
    }

    /// Where the frame header ends: after `ETHER_HEADER_LEN` bytes, or at
    /// the end of a frame too short to hold a full header.
    pub open spec fn spec_split(frame: Seq<u8>) -> int {
        if frame.len() < ETHER_HEADER_LEN {
            frame.len() as int
        } else {
            ETHER_HEADER_LEN as int
        }
    }

    /// The slice of an inbound frame this filter subscribes to, if any.
    pub open spec fn spec_selection(&self, frame: Seq<u8>) -> Option<Seq<u8>> {
        match self {
            PackFilter::Closed => None,
            PackFilter::Entire(_) => Some(frame),
            PackFilter::EtherFrame(_) => Some(frame.take(Self::spec_split(frame))),
            PackFilter::Payload(_) => Some(frame.skip(Self::spec_split(frame))),
        }
    }

    /// Cut the slice this filter subscribes to out of one inbound frame.
    pub fn selection(&self, frame: &Vec<u8>) -> (r: Option<Vec<u8>>)
        ensures
            match r {
                None => self.spec_selection(frame@) is None,
                Some(bytes) => self.spec_selection(frame@) == Some(bytes@),
            },
    {
        let split: usize = if frame.len() < ETHER_HEADER_LEN {
            frame.len()
        } else {
            ETHER_HEADER_LEN
        };
        match self {
            PackFilter::Closed => None,
            PackFilter::Entire(_) => {
                let r = copy_range(frame, 0, frame.len());
                proof {
                    assert(frame@.subrange(0, frame@.len() as int) =~= frame@);
                }
                Some(r)
            },
            PackFilter::EtherFrame(_) => {
                let r = copy_range(frame, 0, split);
                proof {
                    assert(frame@.subrange(0, split as int) =~= frame@.take(
                        Self::spec_split(frame@),
                    ));
                }
                Some(r)
            },
            PackFilter::Payload(_) => {
                let r = copy_range(frame, split, frame.len());
                proof {
                    assert(frame@.subrange(split as int, frame@.len() as int) =~= frame@.skip(
                        Self::spec_split(frame@),
                    ));
                }
                Some(r)
            },
        }
    }

    /// Route one inbound frame to this filter's subscriber: a closed
    /// filter is never delivered to; otherwise the subscribed slice is
    /// offered on the delivery channel without ever blocking, and is
    /// dropped for this subscriber alone if the channel is gone.
    pub fn deliver(&self, frame: &Vec<u8>) -> (delivered: bool)
        ensures
            self.is_closed() ==> !delivered,
    {
        match self.selection(frame) {
            None => false,
            Some(bytes) => match self {
                PackFilter::Closed => false,
                PackFilter::Entire(tx) | PackFilter::EtherFrame(tx) | PackFilter::Payload(tx) => {
                    send_frame(tx, Arc::new(bytes))
                },
            },
        }
    }
}

/// The bytes of `frame` from `from` (inclusive) to `to` (exclusive), as
/// a fresh vector.
fn copy_range(frame: &Vec<u8>, from: usize, to: usize) -> (r: Vec<u8>)
    requires
        from <= to <= frame@.len(),
    ensures
        r@ == frame@.subrange(from as int, to as int),
{
    let mut out: Vec<u8> = Vec::new();
    let mut i: usize = from;
    while i < to
        invariant
            from <= i <= to <= frame@.len(),
            out@ == frame@.subrange(from as int, i as int),
        decreases to - i,
    {
        out.push(frame[i]);
        proof {
            assert(frame@.subrange(from as int, i + 1 as int) =~= frame@.subrange(
                from as int,
                i as int,
            ).push(frame@[i as int]));
        }
        i += 1;
    }
    out
}

} // verus!
