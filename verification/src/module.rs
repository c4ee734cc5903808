use vstd::prelude::*;
use std::sync::mpsc::Sender;
use crate::channel::{send_packet, send_signal};
use crate::filter::PackFilter;

verus! {

/// A running background worker, as the framework tracks it: the producer
/// end of the worker's shutdown-signal channel, the optional channel on
/// which outbound packets are queued for the external transmit path, and
/// the worker's packet filter. The worker's thread itself is owned by
/// the embedding process, which joins it after the stop signal is sent;
/// stopping is always "signal, then wait", never a forced kill.
pub struct Module {
    killer: Sender<()>,
    packet_sender: Option<Sender<Vec<u8>>>,
    filter: PackFilter,
}

impl Module {
    pub closed spec fn spec_killer(&self) -> Sender<()> {
        self.killer
    }

    pub closed spec fn spec_packet_sender(&self) -> Option<Sender<Vec<u8>>> {
        self.packet_sender
    }

    pub closed spec fn spec_filter(&self) -> PackFilter {
        self.filter
    }

    pub fn new(killer: Sender<()>, packet_sender: Option<Sender<Vec<u8>>>, filter: PackFilter) -> (r:
        Module)
        ensures
            r.spec_killer() == killer,
            r.spec_packet_sender() == packet_sender,
            r.spec_filter() == filter,
    {
        Module { killer, packet_sender, filter }
    }

    pub fn filter(&self) -> (r: &PackFilter)
        ensures
            *r == self.spec_filter(),
    {
        &self.filter
    }

    /// Offer one inbound frame to this module under its filter: a module
    /// whose filter is closed receives nothing, whatever is routed.
    pub fn offer_frame(&self, frame: &Vec<u8>) -> (delivered: bool)
        ensures
            self.spec_filter().is_closed() ==> !delivered,
    {
        self.filter.deliver(frame)
    }

    /// Ask the worker to stop, by signalling on its shutdown channel; the
    /// result says whether the signal was accepted (a worker that already
    /// exited has dropped its end). The owner then joins the worker.
    pub fn signal_stop(&self) -> bool {
        send_signal(&self.killer)
    }

    /// Queue raw packet bytes on the outbound channel, if this module was
    /// built with one; a module without an outbound channel queues
    /// nothing.
    pub fn queue_packet(&self, packet: Vec<u8>) -> (accepted: bool)
        ensures
            self.spec_packet_sender() is None ==> !accepted,
    {
        match &self.packet_sender {
            None => false,
            Some(tx) => send_packet(tx, packet),
        }
    }
}

} // verus!
