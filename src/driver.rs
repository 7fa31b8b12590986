//! The decisions of the driver loop: which bind set and buffer each tick
//! uses, whether the tick is captured, when the frame list goes to the
//! encoder, and the frame list itself. The loop that talks to the device
//! performs what a plan says and reports back.
use vstd::prelude::*;
use crate::capture::{strip_padding, unpad};
use crate::pingpong::{current_index, current_of, next_index, next_of};

verus! {

/// What the driver asks of the device at one tick.
#[derive(Clone, Copy, Debug, PartialEq, Eq, Structural)]
pub struct TickPlan {
    /// Index of the bind set of the update dispatch.
    pub update_bind: usize,
    /// Index of the buffer that the draw reads: the one the update wrote.
    pub draw_buffer: usize,
    /// The tick is rendered off-screen and read back.
    pub capture: bool,
    /// The frame list is handed to the encoder at this tick.
    pub encode: bool,
}

/// State of the driver loop: the tick counter and the captured frames.
pub struct Driver {
    frame_num: usize,
    capture_length: usize,
    frame_bytes: usize,
    frames: Vec<Vec<u8>>,
    frame_ticks: Ghost<Seq<nat>>,
    captured: bool,
    encoded: bool,
}

impl Driver {
    /// The tick counter.
    pub closed spec fn spec_tick(&self) -> nat {
        self.frame_num as nat
    }

    /// Number of ticks that are captured.
    pub closed spec fn spec_capture_length(&self) -> nat {
        self.capture_length as nat
    }

    /// Size in bytes of every captured frame.
    pub closed spec fn spec_frame_bytes(&self) -> nat {
        self.frame_bytes as nat
    }

    /// The frames captured so far, in capture order.
    pub closed spec fn spec_frames(&self) -> Seq<Vec<u8>> {
        self.frames@
    }

    /// The tick at which each frame of `spec_frames` was captured.
    pub closed spec fn spec_frame_ticks(&self) -> Seq<nat> {
        self.frame_ticks@
    }

    /// The current tick has already delivered its capture.
    pub closed spec fn spec_captured(&self) -> bool {
        self.captured
    }

    /// The frame list has been handed to the encoder.
    pub closed spec fn spec_encoded(&self) -> bool {
        self.encoded
    }

    /// The driver's invariant.
    pub closed spec fn wf(&self) -> bool {
        &&& self.frames@.len() == self.frame_ticks@.len()
        &&& forall|i: int|
            0 <= i < self.frames@.len() ==> (#[trigger] self.frames@[i])@.len() == self.frame_bytes
        &&& forall|i: int, j: int|
            0 <= i < j < self.frame_ticks@.len() ==> #[trigger] self.frame_ticks@[i]
                < #[trigger] self.frame_ticks@[j]
        &&& forall|i: int|
            0 <= i < self.frame_ticks@.len() ==> {
                &&& #[trigger] self.frame_ticks@[i] < self.capture_length
                &&& (self.frame_ticks@[i] < self.frame_num || (self.captured
                    && self.frame_ticks@[i] == self.frame_num))
            }
        &&& self.encoded ==> self.frames@.len() == 0
        &&& self.encoded ==> self.frame_num >= self.capture_length
    }

    /// A driver at tick 0 that captures the first `capture_length` ticks as
    /// frames of `frame_bytes` bytes.
    pub fn new(capture_length: usize, frame_bytes: usize) -> (r: Driver)
        ensures
            r.wf(),
            r.spec_tick() == 0,
            r.spec_capture_length() == capture_length,
            r.spec_frame_bytes() == frame_bytes,
            r.spec_frames().len() == 0,
            !r.spec_captured(),
            !r.spec_encoded(),
    {
        Driver {
            frame_num: 0,
            capture_length,
            frame_bytes,
            frames: Vec::new(),
            frame_ticks: Ghost(Seq::empty()),
            captured: false,
            encoded: false,
        }
    }

    /// The tick counter.
    pub fn tick(&self) -> (r: usize)
        ensures
            r == self.spec_tick(),
    {
        self.frame_num
    }

    /// Number of frames captured so far.
    pub fn frame_count(&self) -> (r: usize)
        ensures
            r == self.spec_frames().len(),
    {
        self.frames.len()
    }

    /// What the device does at the current tick: update with the bind set
    /// chosen by parity, draw the buffer just written, capture while the
    /// tick is below the capture length, and encode once at that length.
    pub fn plan(&self) -> (r: TickPlan)
        ensures
            r.update_bind as nat == current_of(self.spec_tick()),
            r.draw_buffer as nat == next_of(self.spec_tick()),
            r.capture == (self.spec_tick() < self.spec_capture_length()),
            r.encode == (self.spec_tick() == self.spec_capture_length() && !self.spec_encoded()),
    {
        TickPlan {
            update_bind: current_index(self.frame_num),
            draw_buffer: next_index(self.frame_num),
            capture: self.frame_num < self.capture_length,
            encode: self.frame_num == self.capture_length && !self.encoded,
        }
    }

    /// Takes the result of the read-back of the current tick: a mapped copy
    /// of `height` rows of stride `padded_row`, or `None` when the map failed.
    /// A mapped copy has its padding stripped and is appended to the frame
    /// list; a failed one is dropped and the list stays as it was.
    pub fn record_capture(
        &mut self,
        mapped: Option<Vec<u8>>,
        row_bytes: usize,
        padded_row: usize,
        height: usize,
    )
        requires
            old(self).wf(),
            old(self).spec_tick() < old(self).spec_capture_length(),
            !old(self).spec_captured(),
            row_bytes <= padded_row,
            row_bytes * height == old(self).spec_frame_bytes(),
            mapped is Some ==> mapped->Some_0@.len() == padded_row * height,
        ensures
            final(self).wf(),
            final(self).spec_captured(),
            final(self).spec_tick() == old(self).spec_tick(),
            final(self).spec_capture_length() == old(self).spec_capture_length(),
            final(self).spec_frame_bytes() == old(self).spec_frame_bytes(),
            final(self).spec_encoded() == old(self).spec_encoded(),
            match mapped {
                Some(p) => {
                    &&& final(self).spec_frames().len() == old(self).spec_frames().len() + 1
                    &&& final(self).spec_frames().drop_last() == old(self).spec_frames()
                    &&& final(self).spec_frames().last()@ == unpad(
                        p@,
                        row_bytes as nat,
                        padded_row as nat,
                        height as nat,
                    )
                    &&& final(self).spec_frame_ticks() == old(self).spec_frame_ticks().push(
                        old(self).spec_tick(),
                    )
                },
                None => {
                    &&& final(self).spec_frames() == old(self).spec_frames()
                    &&& final(self).spec_frame_ticks() == old(self).spec_frame_ticks()
                },
            },
    {
        match mapped {
            Some(p) => {
                let data = strip_padding(&p, row_bytes, padded_row, height);
                self.frames.push(data);
                self.frame_ticks = Ghost(self.frame_ticks@.push(self.frame_num as nat));
                assert(self.frames@.drop_last() =~= old(self).frames@);
            },
            None => {},
        }
        self.captured = true;
    }

    /// Hands the frame list to the encoder at the tick that ends the capture
    /// run. The list leaves the driver, in capture order, and is not refilled.
    pub fn take_frames(&mut self) -> (r: Vec<Vec<u8>>)
        requires
            old(self).wf(),
            old(self).spec_tick() == old(self).spec_capture_length(),
            !old(self).spec_encoded(),
        ensures
            final(self).wf(),
            r@ == old(self).spec_frames(),
            final(self).spec_frames().len() == 0,
            final(self).spec_frame_ticks().len() == 0,
            final(self).spec_encoded(),
            final(self).spec_tick() == old(self).spec_tick(),
            final(self).spec_capture_length() == old(self).spec_capture_length(),
            final(self).spec_frame_bytes() == old(self).spec_frame_bytes(),
            final(self).spec_captured() == old(self).spec_captured(),
    {
        let mut r: Vec<Vec<u8>> = Vec::new();
        std::mem::swap(&mut r, &mut self.frames);
        self.frame_ticks = Ghost(Seq::empty());
        self.encoded = true;
        r
    }

    /// Ends the current tick.
    pub fn finish_tick(&mut self)
        requires
            old(self).wf(),
            old(self).spec_tick() < usize::MAX,
        ensures
            final(self).wf(),
            final(self).spec_tick() == old(self).spec_tick() + 1,
            !final(self).spec_captured(),
            final(self).spec_frames() == old(self).spec_frames(),
            final(self).spec_frame_ticks() == old(self).spec_frame_ticks(),
            final(self).spec_capture_length() == old(self).spec_capture_length(),
            final(self).spec_frame_bytes() == old(self).spec_frame_bytes(),
            final(self).spec_encoded() == old(self).spec_encoded(),
    {
        self.frame_num = self.frame_num + 1;
        self.captured = false;
    }
}

/// In a strictly ascending sequence of naturals, entry `i` is at least `i`.
proof fn lemma_ascending_at_least_index(s: Seq<nat>, i: int)
    requires
        forall|a: int, b: int| 0 <= a < b < s.len() ==> #[trigger] s[a] < #[trigger] s[b],
        0 <= i < s.len(),
    ensures
        s[i] >= i,
    decreases i,
{
    if i > 0 {
        lemma_ascending_at_least_index(s, i - 1);
        assert(s[i - 1] < s[i]);
    }
}

/// Every frame that the driver holds comes from a distinct captured tick,
/// they stand in ascending tick order, each has the frame size, and there
/// are never more of them than the capture length.
pub proof fn lemma_frames_in_tick_order(d: &Driver)
    requires
        d.wf(),
    ensures
        d.spec_frames().len() == d.spec_frame_ticks().len(),
        forall|i: int, j: int|
            0 <= i < j < d.spec_frame_ticks().len() ==> #[trigger] d.spec_frame_ticks()[i]
                < #[trigger] d.spec_frame_ticks()[j],
        forall|i: int|
            0 <= i < d.spec_frame_ticks().len() ==> #[trigger] d.spec_frame_ticks()[i]
                < d.spec_capture_length(),
        forall|i: int|
            0 <= i < d.spec_frames().len() ==> (#[trigger] d.spec_frames()[i])@.len()
                == d.spec_frame_bytes(),
        d.spec_frames().len() <= d.spec_capture_length(),
{
    let s = d.spec_frame_ticks();
    if s.len() > 0 {
        lemma_ascending_at_least_index(s, s.len() - 1);
        assert(s[s.len() - 1] < d.spec_capture_length());
    }
}

} // verus!
