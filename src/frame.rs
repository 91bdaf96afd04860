//! The decisions of the fixed-rate render loop: frame counting, the color
//! cycle of the animated square, the running hue offset, mosaic scrolling and
//! the quit state machine. The host performs each frame's input poll, drawing,
//! presenting and sleeping, and reports back here.
use vstd::prelude::*;
use crate::color::{
    lemma_color_cycle_period,
    ColorBase,
    Hsv,
    add_hue_offset,
    add_hue_offset_spec,
    hue_step,
    hue_step_spec,
};
use crate::mosaic::{SampleGrid, Tile, mosaic_spec};

verus! {

/// Pixel size of a mosaic tile, and the sampling stride on both axes.
pub const MOSAIC_STEP: usize = 20;

/// Where the loop is in its life.
#[derive(Clone, Copy, Debug, PartialEq, Eq, Structural)]
pub enum Phase {
    Running,
    /// A quit was asked for; the current frame is still drawn.
    Stopping,
    Stopped,
}

/// The keys the loop tells apart.
#[derive(Clone, Copy, Debug, PartialEq, Eq, Structural)]
pub enum Key {
    Escape,
    Other,
}

/// An input event, reduced to what the loop looks at.
#[derive(Clone, Copy, Debug, PartialEq, Eq, Structural)]
pub enum InputEvent {
    /// The window was asked to close.
    Quit,
    KeyDown(Key),
    Other,
}

/// Whether `e` asks the loop to stop: a close request or the escape key.
pub open spec fn is_quit_intent_spec(e: InputEvent) -> bool {
    e == InputEvent::Quit || e == InputEvent::KeyDown(Key::Escape)
}

/// Whether any of `events` asks the loop to stop.
pub open spec fn has_quit_intent(events: Seq<InputEvent>) -> bool {
    exists|i: int| 0 <= i < events.len() && is_quit_intent_spec(#[trigger] events[i])
}

/// Whether `e` asks the loop to stop.
pub fn is_quit_intent(e: InputEvent) -> (r: bool)
    ensures
        r == is_quit_intent_spec(e),
{
    match e {
        InputEvent::Quit => true,
        InputEvent::KeyDown(Key::Escape) => true,
        _ => false,
    }
}

/// What to draw in one frame.
pub struct FramePlan {
    /// The color the canvas is cleared with.
    pub background: Hsv,
    /// The mosaic tiles, drawn over the background in order.
    pub tiles: Vec<Tile>,
    /// The color of the animated square, drawn last.
    pub square: Hsv,
}

/// The state carried from one frame of the loop to the next.
#[derive(Clone, Copy, Debug, PartialEq, Eq, Structural)]
pub struct LoopState {
    /// Frames per second; also the number of frames between color changes.
    pub fps: u32,
    pub phase: Phase,
    /// Frames begun so far, wrapping on overflow.
    pub frame: u64,
    /// The base color of the background, shifted by the hue offset.
    pub background_base: ColorBase,
    /// The base color of the animated square; it changes once a second.
    pub square_base: ColorBase,
    /// The hue shift accumulated so far.
    pub hue_offset: Hsv,
    /// How many rows the mosaic has scrolled.
    pub scroll_row: usize,
}

/// `n + 1` on 64 bits, wrapping to zero.
pub open spec fn next_frame(n: u64) -> u64 {
    if n == u64::MAX {
        0
    } else {
        (n + 1) as u64
    }
}

impl LoopState {
    /// A positive frame rate and a hue offset within one turn.
    pub open spec fn wf(&self) -> bool {
        self.fps > 0 && self.hue_offset.wf()
    }

    /// The state before the first frame.
    pub open spec fn initial(fps: u32, square_base: ColorBase) -> LoopState {
        LoopState {
            fps,
            phase: Phase::Running,
            frame: 0,
            background_base: ColorBase::Red,
            square_base,
            hue_offset: Hsv { hue: 0, saturation: 0, value: 0 },
            scroll_row: 0,
        }
    }

    /// The state once a frame has begun and `events` were read: the frame
    /// count goes up by one, the square's color moves on when the count is a
    /// multiple of the frame rate, a quit intent makes the loop stop after this
    /// frame, and the hue offset turns by one frame's step.
    pub open spec fn polled(self, events: Seq<InputEvent>) -> LoopState {
        let frame = next_frame(self.frame);
        LoopState {
            frame,
            square_base: if frame as int % (self.fps as int) == 0 {
                self.square_base.next_spec()
            } else {
                self.square_base
            },
            phase: if has_quit_intent(events) {
                Phase::Stopping
            } else {
                self.phase
            },
            hue_offset: add_hue_offset_spec(self.hue_offset, hue_step_spec(self.fps)),
            ..self
        }
    }

    /// The state once a frame has been presented: a stopping loop stops, and
    /// the mosaic scrolls one row down an image `height` rows high.
    pub open spec fn ended(self, height: usize) -> LoopState {
        LoopState {
            phase: if self.phase == Phase::Stopping {
                Phase::Stopped
            } else {
                self.phase
            },
            scroll_row: if height == 0 {
                0
            } else {
                ((self.scroll_row + 1) % (height as int)) as usize
            },
            ..self
        }
    }

    /// The state after `n` frames in which no input arrived.
    pub open spec fn after_quiet_frames(self, n: nat) -> LoopState
        decreases n,
    {
        if n == 0 {
            self
        } else {
            self.after_quiet_frames((n - 1) as nat).polled(Seq::empty())
        }
    }

    /// A running loop at frame zero, with a red background and the square in
    /// `square_base`.
    pub fn new(fps: u32, square_base: ColorBase) -> (r: LoopState)
        requires
            fps > 0,
        ensures
            r == LoopState::initial(fps, square_base),
            r.wf(),
    {
        LoopState {
            fps,
            phase: Phase::Running,
            frame: 0,
            background_base: ColorBase::Red,
            square_base,
            hue_offset: Hsv { hue: 0, saturation: 0, value: 0 },
            scroll_row: 0,
        }
    }

    /// Begins a frame of a running loop, given the events drained from input.
    pub fn begin_frame(&mut self, events: &Vec<InputEvent>)
        requires
            old(self).wf(),
            old(self).phase == Phase::Running,
        ensures
            *final(self) == old(self).polled(events@),
            final(self).wf(),
    {
        self.frame = self.frame.wrapping_add(1);
        if self.frame % (self.fps as u64) == 0 {
            self.square_base = self.square_base.next();
        }
        let mut i: usize = 0;
        let mut quit = false;
        while i < events.len()
            invariant
                i <= events@.len(),
                quit <==> exists|j: int| 0 <= j < i && is_quit_intent_spec(#[trigger] events@[j]),
            decreases events@.len() - i,
        {
            if is_quit_intent(events[i]) {
                quit = true;
            }
            i = i + 1;
        }
        if quit {
            self.phase = Phase::Stopping;
        }
        self.hue_offset = add_hue_offset(self.hue_offset, hue_step(self.fps));
    }

    /// The colors and tiles of the current frame over the image `grid`.
    pub fn plan_frame(&self, grid: &SampleGrid) -> (r: FramePlan)
        requires
            grid.wf(),
        ensures
            r.background == add_hue_offset_spec(self.background_base.hsv_spec(), self.hue_offset),
            r.tiles@ == mosaic_spec(
                grid.samples@,
                grid.width as int,
                grid.height as int,
                MOSAIC_STEP as int,
                self.scroll_row as int,
                self.hue_offset,
            ),
            r.square == add_hue_offset_spec(self.square_base.hsv_spec(), self.hue_offset),
    {
        FramePlan {
            background: add_hue_offset(self.background_base.to_hsv(), self.hue_offset),
            tiles: grid.plan_mosaic(MOSAIC_STEP, self.scroll_row, self.hue_offset),
            square: add_hue_offset(self.square_base.to_hsv(), self.hue_offset),
        }
    }

    /// Ends a presented frame of an image `height` rows high; returns whether
    /// the loop goes on to another frame.
    pub fn end_frame(&mut self, height: usize) -> (keep_running: bool)
        ensures
            *final(self) == old(self).ended(height),
            keep_running == (final(self).phase == Phase::Running),
    {
        if self.phase == Phase::Stopping {
            self.phase = Phase::Stopped;
        }
        if height == 0 {
            self.scroll_row = 0;
        } else {
            proof {
                vstd::arithmetic::div_mod::lemma_add_mod_noop(
                    self.scroll_row as int,
                    1,
                    height as int,
                );
                if height > 1 {
                    vstd::arithmetic::div_mod::lemma_small_mod(1, height as nat);
                } else {
                    vstd::arithmetic::div_mod::lemma_mod_self_0(1);
                }
            }
            self.scroll_row = (self.scroll_row % height + 1) % height;
        }
        self.phase == Phase::Running
    }
}

proof fn lemma_div_step(n: int, f: int)
    requires
        n >= 0,
        f > 0,
    ensures
        (n + 1) / f == n / f + (if (n + 1) % f == 0 {
            1int
        } else {
            0int
        }),
{
    let q = n / f;
    let r = n % f;
    vstd::arithmetic::div_mod::lemma_fundamental_div_mod(n, f);
    if r + 1 < f {
        vstd::arithmetic::div_mod::lemma_fundamental_div_mod_converse(n + 1, f, q, r + 1);
    } else {
        assert(n + 1 == f * q + f);
        assert(n + 1 == (q + 1) * f + 0) by (nonlinear_arith)
            requires
                n + 1 == f * q + f,
        ;
        vstd::arithmetic::div_mod::lemma_fundamental_div_mod_converse(n + 1, f, q + 1, 0);
    }
}

/// Starting a loop with the square in `base`, after `n` frames the frame
/// count is `n` and the square has moved on once for every `fps` frames: its
/// color is `base` advanced `n / fps` times through red, green, blue.
pub proof fn lemma_square_color_cycle(fps: u32, base: ColorBase, n: nat)
    requires
        fps > 0,
        n <= u64::MAX,
    ensures
        LoopState::initial(fps, base).after_quiet_frames(n).frame == n,
        LoopState::initial(fps, base).after_quiet_frames(n).fps == fps,
        LoopState::initial(fps, base).after_quiet_frames(n).square_base == base.advanced(
            n / (fps as nat),
        ),
    decreases n,
{
    if n > 0 {
        let m = (n - 1) as nat;
        lemma_square_color_cycle(fps, base, m);
        lemma_div_step(m as int, fps as int);
        let s = LoopState::initial(fps, base).after_quiet_frames(m);
        assert(LoopState::initial(fps, base).after_quiet_frames(n) == s.polled(Seq::empty()));
        if (m + 1) as int % (fps as int) == 0 {
            assert(n / (fps as nat) == m / (fps as nat) + 1);
        } else {
            assert(n / (fps as nat) == m / (fps as nat));
        }
    }
}

/// Starting a loop with the square in `base`, the square takes the next color
/// of the cycle after `fps` frames, the one after that after `2 * fps` frames,
/// and is back at `base` after `3 * fps` frames.
pub proof fn lemma_square_cycle_over_three_seconds(fps: u32, base: ColorBase)
    requires
        fps > 0,
    ensures
        LoopState::initial(fps, base).after_quiet_frames(fps as nat).square_base
            == base.next_spec(),
        LoopState::initial(fps, base).after_quiet_frames(2 * fps as nat).square_base
            == base.next_spec().next_spec(),
        LoopState::initial(fps, base).after_quiet_frames(3 * fps as nat).square_base == base,
{
    let f = fps as nat;
    lemma_square_color_cycle(fps, base, f);
    lemma_square_color_cycle(fps, base, 2 * f);
    lemma_square_color_cycle(fps, base, 3 * f);
    vstd::arithmetic::div_mod::lemma_div_by_self(f as int);
    vstd::arithmetic::div_mod::lemma_div_multiples_vanish(2, f as int);
    vstd::arithmetic::div_mod::lemma_div_multiples_vanish(3, f as int);
    assert(2 * f == f * 2);
    assert(3 * f == f * 3);
    lemma_color_cycle_period(base, 0);
    assert(base.advanced(1) == base.advanced(0).next_spec());
    assert(base.advanced(2) == base.advanced(1).next_spec());
}

/// A running loop that reads a quit intent in a frame's input draws that
/// frame and then stops: once the frame has begun the loop is stopping, and
/// once it has been presented the loop is stopped and goes no further.
pub proof fn lemma_quit_stops_after_current_frame(
    s: LoopState,
    events: Seq<InputEvent>,
    height: usize,
)
    requires
        s.wf(),
        s.phase == Phase::Running,
        has_quit_intent(events),
    ensures
        s.polled(events).phase == Phase::Stopping,
        s.polled(events).ended(height).phase == Phase::Stopped,
{
}

/// A running loop whose frame brings no quit intent keeps running.
pub proof fn lemma_no_quit_keeps_running(s: LoopState, events: Seq<InputEvent>, height: usize)
    requires
        s.wf(),
        s.phase == Phase::Running,
        !has_quit_intent(events),
    ensures
        s.polled(events).phase == Phase::Running,
        s.polled(events).ended(height).phase == Phase::Running,
{
}

} // verus!
