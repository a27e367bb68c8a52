//! The frame producer: bridges a frame source's delivery thread to the
//! render loop through a single-slot shared frame buffer and a coalescing
//! notification queue with drop-oldest backpressure.
//!
//! The decision logic of the delivery callback lives here and is verified;
//! the calling side performs the actual media plumbing and hands every
//! decoded frame to `deliver`, and the render loop takes messages with
//! `drain` and the latest bytes with `frame`.

use crate::escape::dec_digits;
use crate::escape::push_decimal;
use vstd::prelude::*;

verus! {

/// The whole vocabulary between the producer and the render loop: recreate
/// the renderer for a new resolution, or render the latest frame.
#[derive(Clone, Copy, PartialEq, Eq, Structural, Debug)]
pub enum ProducerMessage {
    Initialize { width: u32, height: u32 },
    FrameReady,
}

/// Frames counted since startup: dropped (notification queue full) and
/// not dropped (notification delivered). Never decremented.
#[derive(Clone, Copy, PartialEq, Eq, Structural, Debug)]
pub struct FrameCounter {
    pub dropped: u64,
    pub not_dropped: u64,
}

/// Some pending message is `FrameReady`.
pub open spec fn has_ready(q: Seq<ProducerMessage>) -> bool {
    exists|i: int| 0 <= i < q.len() && q[i] is FrameReady
}

/// At most one pending message is `FrameReady`: the queue coalesces.
pub open spec fn at_most_one_ready(q: Seq<ProducerMessage>) -> bool {
    forall|i: int, j: int|
        0 <= i < j < q.len() && #[trigger] q[i] is FrameReady ==> !(#[trigger] q[j]
            is FrameReady)
}

/// The producer: the latest delivered frame bytes, the pending messages in
/// delivery order, the drop/deliver counters, and the last-seen resolution.
pub struct FrameProducer {
    pub frame: Vec<u8>,
    pub queue: Vec<ProducerMessage>,
    pub ready_pending: bool,
    pub counter: FrameCounter,
    pub width: u32,
    pub height: u32,
    pub has_resolution: bool,
    pub subscribed: bool,
}

impl FrameProducer {
    /// `ready_pending` mirrors the queue, and `FrameReady` never queues twice.
    pub open spec fn wf(&self) -> bool {
        &&& self.ready_pending == has_ready(self.queue@)
        &&& at_most_one_ready(self.queue@)
    }

    /// A producer with no frame, no pending message, zero counters and no
    /// resolution seen yet.
    pub fn new() -> (p: Self)
        ensures
            p.wf(),
            p.frame@ == Seq::<u8>::empty(),
            p.queue@ == Seq::<ProducerMessage>::empty(),
            p.counter == (FrameCounter { dropped: 0, not_dropped: 0 }),
            !p.has_resolution,
            !p.subscribed,
    {
        FrameProducer {
            frame: Vec::new(),
            queue: Vec::new(),
            ready_pending: false,
            counter: FrameCounter { dropped: 0, not_dropped: 0 },
            width: 0,
            height: 0,
            has_resolution: false,
            subscribed: false,
        }
    }

    /// Claims the single notification subscription. At most one subscriber
    /// may ever exist: calling this twice is a caller bug.
    pub fn subscribe(&mut self)
        requires
            !old(self).subscribed,
        ensures
            final(self).subscribed,
            *final(self) == (FrameProducer { subscribed: true, ..*old(self) }),
    {
        self.subscribed = true;
    }

    /// The delivery callback: stores the frame bytes in the single shared
    /// slot; queues `Initialize` first whenever the resolution differs from
    /// the last seen one (never dropped); then tries to queue `FrameReady`
    /// on the capacity-one notification channel — if one is already
    /// pending, the frame counts as dropped, otherwise as delivered.
    /// Exactly one of the two counters grows by one per call.
    pub fn deliver(&mut self, data: Vec<u8>, width: u32, height: u32)
        requires
            old(self).wf(),
            old(self).counter.dropped + old(self).counter.not_dropped < u64::MAX,
        ensures
            final(self).wf(),
            final(self).frame@ == data@,
            final(self).counter.dropped + final(self).counter.not_dropped == old(
                self,
            ).counter.dropped + old(self).counter.not_dropped + 1,
            final(self).queue@ == old(self).queue@ + (if !old(self).has_resolution || width != old(
                self,
            ).width || height != old(self).height {
                seq![ProducerMessage::Initialize { width, height }]
            } else {
                Seq::empty()
            }) + (if old(self).ready_pending {
                Seq::empty()
            } else {
                seq![ProducerMessage::FrameReady]
            }),
            final(self).counter.not_dropped == old(self).counter.not_dropped + (if old(
                self,
            ).ready_pending {
                0int
            } else {
                1int
            }),
            final(self).counter.dropped == old(self).counter.dropped + (if old(
                self,
            ).ready_pending {
                1int
            } else {
                0int
            }),
            final(self).width == width,
            final(self).height == height,
            final(self).has_resolution,
            final(self).subscribed == old(self).subscribed,
    {
        self.frame = data;
        let res_changed = !self.has_resolution || width != self.width || height != self.height;
        let ghost q0 = self.queue@;
        if res_changed {
            self.queue.push(ProducerMessage::Initialize { width, height });
            self.width = width;
            self.height = height;
            self.has_resolution = true;
            proof {
                assert forall|i: int|
                    0 <= i < self.queue@.len() && self.queue@[i] is FrameReady implies 0 <= i
                    < q0.len() && q0[i] is FrameReady by {}
                assert(has_ready(self.queue@) == has_ready(q0));
            }
        } else {
            self.width = width;
            self.height = height;
        }
        if self.ready_pending {
            self.counter.dropped = self.counter.dropped + 1;
        } else {
            self.queue.push(ProducerMessage::FrameReady);
            self.ready_pending = true;
            self.counter.not_dropped = self.counter.not_dropped + 1;
            proof {
                let last = self.queue@.len() - 1;
                assert(self.queue@[last] is FrameReady);
                assert(has_ready(self.queue@));
            }
        }
        proof {
            assert(final(self).queue@ =~= old(self).queue@ + (if !old(self).has_resolution
                || width != old(self).width || height != old(self).height {
                seq![ProducerMessage::Initialize { width, height }]
            } else {
                Seq::empty()
            }) + (if old(self).ready_pending {
                Seq::<ProducerMessage>::empty()
            } else {
                seq![ProducerMessage::FrameReady]
            }));
        }
    }

    /// Takes the oldest pending message, if any. Counters and the frame
    /// slot are untouched: reading notifications never loses frame bytes.
    pub fn drain(&mut self) -> (r: Option<ProducerMessage>)
        requires
            old(self).wf(),
            old(self).subscribed,
        ensures
            final(self).wf(),
            final(self).frame@ == old(self).frame@,
            final(self).counter == old(self).counter,
            final(self).width == old(self).width,
            final(self).height == old(self).height,
            final(self).has_resolution == old(self).has_resolution,
            final(self).subscribed,
            old(self).queue@.len() == 0 ==> r is None && final(self).queue@ == old(self).queue@,
            old(self).queue@.len() > 0 ==> r == Some(old(self).queue@[0]) && final(self).queue@
                == old(self).queue@.drop_first(),
    {
        if self.queue.len() == 0 {
            None
        } else {
            let ghost q0 = self.queue@;
            let m = self.queue.remove(0);
            proof {
                assert(self.queue@ =~= q0.drop_first());
            }
            match m {
                ProducerMessage::FrameReady => {
                    self.ready_pending = false;
                    proof {
                        if has_ready(self.queue@) {
                            let i = choose|i: int|
                                0 <= i < self.queue@.len() && self.queue@[i] is FrameReady;
                            assert(q0[i + 1] is FrameReady);
                            assert(q0[0] is FrameReady);
                            assert(false);
                        }
                    }
                },
                ProducerMessage::Initialize { .. } => {
                    proof {
                        if has_ready(q0) {
                            let i = choose|i: int| 0 <= i < q0.len() && q0[i] is FrameReady;
                            assert(i > 0);
                            assert(self.queue@[i - 1] is FrameReady);
                        }
                        if has_ready(self.queue@) {
                            let i = choose|i: int|
                                0 <= i < self.queue@.len() && self.queue@[i] is FrameReady;
                            assert(q0[i + 1] is FrameReady);
                        }
                        assert(has_ready(self.queue@) == has_ready(q0));
                    }
                },
            }
            Some(m)
        }
    }

    /// Scoped read access to the most recently delivered frame bytes.
    pub fn frame(&self) -> (r: &Vec<u8>)
        ensures
            r@ == self.frame@,
    {
        &self.frame
    }

    /// A copy of the drop/deliver counters, for reporting.
    pub fn counter(&self) -> (c: FrameCounter)
        ensures
            c == self.counter,
    {
        self.counter
    }
}

/// The report line for `dropped` dropped frames of `total`: the percentage
/// is `dropped / total`, rounded down to hundredths; a total of zero gets a
/// fixed line instead of a division by zero.
pub open spec fn summary_of(dropped: int, not_dropped: int) -> Seq<u8> {
    let total = dropped + not_dropped;
    if total == 0 {
        seq![
            110u8, 111u8, 32u8, 102u8, 114u8, 97u8, 109u8, 101u8, 115u8, 32u8, 112u8, 114u8,
            111u8, 99u8, 101u8, 115u8, 115u8, 101u8, 100u8,
        ]
    } else {
        let basis_points = dropped * 10000 / total;
        seq![100u8, 114u8, 111u8, 112u8, 112u8, 101u8, 100u8, 32u8] + dec_digits(dropped) + seq![
            32u8, 102u8, 114u8, 97u8, 109u8, 101u8, 115u8, 32u8, 111u8, 102u8, 32u8,
        ] + dec_digits(total) + seq![32u8, 40u8] + dec_digits(basis_points / 100) + seq![46u8]
            + seq![(48 + basis_points % 100 / 10) as u8, (48 + basis_points % 10) as u8] + seq![
            37u8,
            41u8,
        ]
    }
}

impl FrameCounter {
    /// Appends the dropped-frames report line to `out`.
    #[verifier::rlimit(50)]
    pub fn push_summary(&self, out: &mut Vec<u8>)
        requires
            self.dropped + self.not_dropped <= u64::MAX,
        ensures
            final(out)@ == old(out)@ + summary_of(self.dropped as int, self.not_dropped as int),
    {
        if self.dropped == 0 && self.not_dropped == 0 {
            out.push(110);
            out.push(111);
            out.push(32);
            out.push(102);
            out.push(114);
            out.push(97);
            out.push(109);
            out.push(101);
            out.push(115);
            out.push(32);
            out.push(112);
            out.push(114);
            out.push(111);
            out.push(99);
            out.push(101);
            out.push(115);
            out.push(115);
            out.push(101);
            out.push(100);
            assert(out@ =~= old(out)@ + summary_of(
                self.dropped as int,
                self.not_dropped as int,
            ));
        } else {
            let total = self.dropped + self.not_dropped;
            let basis_points = ((self.dropped as u128) * 10000 / (total as u128)) as u64;
            proof {
                assert((self.dropped as int) * 10000 / (total as int) <= 10000) by (nonlinear_arith)
                    requires
                        0 < total as int,
                        0 <= self.dropped as int <= total as int,
                ;
            }
            out.push(100);
            out.push(114);
            out.push(111);
            out.push(112);
            out.push(112);
            out.push(101);
            out.push(100);
            out.push(32);
            push_decimal(out, self.dropped);
            out.push(32);
            out.push(102);
            out.push(114);
            out.push(97);
            out.push(109);
            out.push(101);
            out.push(115);
            out.push(32);
            out.push(111);
            out.push(102);
            out.push(32);
            push_decimal(out, total);
            out.push(32);
            out.push(40);
            push_decimal(out, basis_points / 100);
            out.push(46);
            out.push(48 + ((basis_points % 100) / 10) as u8);
            out.push(48 + (basis_points % 10) as u8);
            out.push(37);
            out.push(41);
            assert(out@ =~= old(out)@ + summary_of(
                self.dropped as int,
                self.not_dropped as int,
            ));
        }
    }
}

} // verus!
