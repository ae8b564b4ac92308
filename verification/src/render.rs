//! The render loop: what it decides at each turn, and the drawing of one
//! frame. The loop itself, with its waits, is run by the caller.

use vstd::prelude::*;
use crate::backend::{Backend, BackendError};
use crate::canvas::{Canvas, CanvasView};
use crate::color::Color;
use crate::font::{Font, FontView};
use crate::panel::{Panel, SwapError};
use crate::text::with_text;

verus! {

/// Where the loop stands.
#[derive(Clone, Copy, Debug, PartialEq, Eq, Structural)]
pub enum LoopState {
    /// Between two frames: no frame is pending.
    Idle,
    /// A frame is being drawn or offered to the display.
    Rendering,
    /// The loop has ended, by cancellation or by failure.
    Stopped,
}

/// What the caller reports to the loop.
#[derive(Clone, Copy, Debug)]
pub enum LoopEvent {
    /// The loop is at the boundary between two iterations; `cancelled` says
    /// whether it was asked to end.
    Boundary { cancelled: bool },
    /// A frame was drawn and swapped, with this outcome.
    Swapped(Result<(), SwapError>),
}

/// What the loop asks the caller to do next.
#[derive(Clone, Copy, Debug, PartialEq, Eq, Structural)]
pub enum LoopAction {
    /// Draw a frame into the off-screen canvas and swap it.
    Draw,
    /// Take the off-screen canvas again and swap it once more, as it is.
    Retry,
    /// Wait for this many milliseconds, then report the boundary.
    Wait(u64),
    /// End the loop: it was cancelled.
    Stop,
    /// End the loop: the display failed too often, or the swap was misused.
    Abort(SwapError),
    /// The event does not fit the state and was passed over.
    Ignore,
}

/// The decisions of a render loop that shows one frame per interval and
/// gives up after a number of consecutive failures of the display.
#[derive(Clone, Copy, Debug, PartialEq, Eq, Structural)]
pub struct RenderLoop {
    pub state: LoopState,
    pub interval_ms: u64,
    pub max_failures: u32,
    pub failures: u32,
    pub frames: u64,
}

/// `count` and one more, as far as the type can count.
pub open spec fn bumped(count: int, limit: int) -> int {
    if count < limit {
        count + 1
    } else {
        limit
    }
}

impl RenderLoop {
    /// The loop before its first iteration.
    pub open spec fn initial(interval_ms: u64, max_failures: u32) -> RenderLoop {
        RenderLoop { state: LoopState::Idle, interval_ms, max_failures, failures: 0, frames: 0 }
    }

    /// The loop after `event`, and what it asks for.
    ///
    /// At a boundary an idle loop either starts a frame or, when cancelled,
    /// stops. While a frame is pending, cancellation is not looked at: only
    /// the outcome of the swap moves the loop on. A frame that was shown
    /// resets the count of failures and is followed by a wait. A frame that
    /// the display refused is retried until `max_failures` refusals in a row
    /// have been counted. A stopped loop stays stopped.
    pub open spec fn next(self, event: LoopEvent) -> (RenderLoop, LoopAction) {
        match (self.state, event) {
            (LoopState::Idle, LoopEvent::Boundary { cancelled }) => if cancelled {
                (RenderLoop { state: LoopState::Stopped, ..self }, LoopAction::Stop)
            } else {
                (RenderLoop { state: LoopState::Rendering, ..self }, LoopAction::Draw)
            },
            (LoopState::Rendering, LoopEvent::Swapped(Ok(_))) => (
                RenderLoop {
                    state: LoopState::Idle,
                    failures: 0,
                    frames: bumped(self.frames as int, u64::MAX as int) as u64,
                    ..self
                },
                LoopAction::Wait(self.interval_ms),
            ),
            (LoopState::Rendering, LoopEvent::Swapped(Err(SwapError::Backend(error)))) => {
                let failures = bumped(self.failures as int, u32::MAX as int) as u32;
                if failures >= self.max_failures {
                    (
                        RenderLoop { state: LoopState::Stopped, failures, ..self },
                        LoopAction::Abort(SwapError::Backend(error)),
                    )
                } else {
                    (RenderLoop { failures, ..self }, LoopAction::Retry)
                }
            },
            (LoopState::Rendering, LoopEvent::Swapped(Err(SwapError::NotLent))) => (
                RenderLoop { state: LoopState::Stopped, ..self },
                LoopAction::Abort(SwapError::NotLent),
            ),
            (LoopState::Stopped, _) => (self, LoopAction::Stop),
            _ => (self, LoopAction::Ignore),
        }
    }

    /// A loop that waits `interval_ms` milliseconds after each frame and
    /// gives up at `max_failures` consecutive failures of the display.
    pub fn new(interval_ms: u64, max_failures: u32) -> (made: RenderLoop)
        ensures
            made == RenderLoop::initial(interval_ms, max_failures),
    {
        RenderLoop { state: LoopState::Idle, interval_ms, max_failures, failures: 0, frames: 0 }
    }

    /// Takes `event` and says what to do next.
    pub fn step(&mut self, event: LoopEvent) -> (action: LoopAction)
        ensures
            *final(self) == old(self).next(event).0,
            action == old(self).next(event).1,
    {
        match self.state {
            LoopState::Stopped => LoopAction::Stop,
            LoopState::Idle => match event {
                LoopEvent::Boundary { cancelled } => {
                    if cancelled {
                        self.state = LoopState::Stopped;
                        LoopAction::Stop
                    } else {
                        self.state = LoopState::Rendering;
                        LoopAction::Draw
                    }
                },
                LoopEvent::Swapped(_) => LoopAction::Ignore,
            },
            LoopState::Rendering => match event {
                LoopEvent::Boundary { cancelled } => LoopAction::Ignore,
                LoopEvent::Swapped(Ok(_)) => {
                    self.state = LoopState::Idle;
                    self.failures = 0;
                    if self.frames < u64::MAX {
                        self.frames = self.frames + 1;
                    }
                    LoopAction::Wait(self.interval_ms)
                },
                LoopEvent::Swapped(Err(SwapError::Backend(error))) => {
                    if self.failures < u32::MAX {
                        self.failures = self.failures + 1;
                    }
                    if self.failures >= self.max_failures {
                        self.state = LoopState::Stopped;
                        LoopAction::Abort(SwapError::Backend(error))
                    } else {
                        LoopAction::Retry
                    }
                },
                LoopEvent::Swapped(Err(SwapError::NotLent)) => {
                    self.state = LoopState::Stopped;
                    LoopAction::Abort(SwapError::NotLent)
                },
            },
        }
    }
}

/// Cancellation is honoured at iteration boundaries only: while a frame is
/// pending, a report of the boundary changes nothing, whatever it says of
/// cancellation, and only the outcome of the swap moves the loop on.
pub proof fn lemma_frame_completes(driver: RenderLoop, cancelled: bool)
    requires
        driver.state == LoopState::Rendering,
    ensures
        driver.next(LoopEvent::Boundary { cancelled }) == (driver, LoopAction::Ignore),
        driver.next(LoopEvent::Swapped(Ok(()))).0.state == LoopState::Idle,
        driver.next(LoopEvent::Swapped(Ok(()))).1 == LoopAction::Wait(driver.interval_ms),
{
}

/// An idle loop that is told of cancellation stops without drawing, and one
/// that is not starts a frame.
pub proof fn lemma_boundary_decides(driver: RenderLoop, cancelled: bool)
    requires
        driver.state == LoopState::Idle,
    ensures
        driver.next(LoopEvent::Boundary { cancelled }).1 == if cancelled {
            LoopAction::Stop
        } else {
            LoopAction::Draw
        },
        driver.next(LoopEvent::Boundary { cancelled }).0.state == if cancelled {
            LoopState::Stopped
        } else {
            LoopState::Rendering
        },
{
}

/// The loop after `count` refusals of the display in a row, each with
/// `error`.
pub open spec fn after_refusals(driver: RenderLoop, error: BackendError, count: nat) -> RenderLoop
    decreases count,
{
    if count == 0 {
        driver
    } else {
        after_refusals(
            driver,
            error,
            (count - 1) as nat,
        ).next(LoopEvent::Swapped(Err(SwapError::Backend(error)))).0
    }
}

/// Retries are bounded: a loop with a pending frame and no failure counted
/// stays with that frame through fewer than `max_failures` refusals in a row,
/// and has stopped once `max_failures` of them have come.
pub proof fn lemma_retries_bounded(driver: RenderLoop, error: BackendError, count: nat)
    requires
        driver.state == LoopState::Rendering,
        driver.failures == 0,
        driver.max_failures >= 1,
        count <= driver.max_failures,
    ensures
        after_refusals(driver, error, count).failures == count,
        after_refusals(driver, error, count).state == if count < driver.max_failures {
            LoopState::Rendering
        } else {
            LoopState::Stopped
        },
        after_refusals(driver, error, count).max_failures == driver.max_failures,
    decreases count,
{
    if count > 0 {
        lemma_retries_bounded(driver, error, (count - 1) as nat);
    }
}

/// What one frame shows: `text` drawn with the pen starting at (`x`, `y`),
/// in `color`, on a cleared canvas.
pub open spec fn frame_of(
    canvas: CanvasView,
    font: FontView,
    text: Seq<char>,
    x: int,
    y: int,
    color: Color,
    spacing: int,
) -> CanvasView {
    with_text(canvas.cleared(), font, text, x, y, color, spacing)
}

/// Draws one frame into `canvas` and swaps it: clears the canvas, draws
/// `text` and publishes the result. Returns what the swap returns.
pub fn render<B: Backend>(
    panel: &mut Panel<B>,
    canvas: Canvas,
    font: &Font,
    text: &str,
    x: i32,
    y: i32,
    color: Color,
    letter_spacing: i32,
) -> (back: Result<Canvas, SwapError>)
    ensures
        old(panel)@.wf() ==> final(panel)@.wf(),
        !old(panel)@.lends(canvas@) ==> back == Err::<Canvas, SwapError>(SwapError::NotLent)
            && final(panel)@ == old(panel)@,
        old(panel)@.lends(canvas@) ==> match back {
            Ok(next) => final(panel)@ == old(panel)@.published(
                frame_of(canvas@, font@, text@, x as int, y as int, color, letter_spacing as int),
            ) && next@ == old(panel)@.displayed && next@.id != canvas@.id,
            Err(SwapError::Backend(_)) => final(panel)@ == old(panel)@.retained(
                frame_of(canvas@, font@, text@, x as int, y as int, color, letter_spacing as int),
            ),
            Err(SwapError::NotLent) => false,
        },
{
    let mut canvas = canvas;
    canvas.clear();
    let _ = canvas.draw_text(font, text, x, y, color, letter_spacing, false);
    panel.swap(canvas)
}

/// Offers the frame that the display refused once more: takes the canvas
/// that the panel kept and swaps it again, as it is. Where the panel keeps no
/// canvas there is nothing to offer, and the panel stays as it is.
pub fn retry<B: Backend>(panel: &mut Panel<B>) -> (back: Result<Canvas, SwapError>)
    ensures
        old(panel)@.wf() ==> final(panel)@.wf(),
        old(panel)@.spare is None ==> back == Err::<Canvas, SwapError>(SwapError::NotLent)
            && final(panel)@ == old(panel)@,
        old(panel)@.spare is Some && old(panel)@.wf() ==> match back {
            Ok(next) => final(panel)@ == old(panel)@.published(old(panel)@.spare->0) && next@
                == old(panel)@.displayed && next@.id != old(panel)@.spare->0.id,
            Err(SwapError::Backend(_)) => final(panel)@ == old(panel)@,
            Err(SwapError::NotLent) => false,
        },
{
    match panel.offscreen_canvas() {
        Some(canvas) => panel.swap(canvas),
        None => Err(SwapError::NotLent),
    }
}

/// How one iteration of the loop ended.
#[derive(Debug)]
pub enum Iteration {
    /// A frame was shown. The caller holds the canvas to draw the next frame
    /// into, and is to wait for this many milliseconds.
    Shown(Canvas, u64),
    /// The loop was cancelled, now or earlier: nothing was drawn, and the
    /// canvas comes back as it was.
    Stopped(Canvas),
    /// The loop has given up: the display failed too often, or the canvas is
    /// not the one that the panel has handed out.
    Aborted(SwapError),
    /// The loop was not at an iteration boundary: nothing was done.
    Ignored(Canvas),
}

/// Runs one iteration of the loop, from the boundary to the wait: reports
/// the boundary to `driver`, and where the loop goes on, draws `text` into
/// `canvas`, swaps it, and offers the same frame again for as long as the
/// display refuses it and `driver` allows another attempt. The wait itself is
/// left to the caller.
pub fn iterate<B: Backend>(
    panel: &mut Panel<B>,
    driver: &mut RenderLoop,
    canvas: Canvas,
    cancelled: bool,
    font: &Font,
    text: &str,
    x: i32,
    y: i32,
    color: Color,
    letter_spacing: i32,
) -> (ended: Iteration)
    ensures
        old(panel)@.wf() ==> final(panel)@.wf(),
        old(driver).next(LoopEvent::Boundary { cancelled }).1 == LoopAction::Stop ==> (match ended {
            Iteration::Stopped(back) => back@ == canvas@ && final(panel)@ == old(panel)@
                && *final(driver) == old(driver).next(LoopEvent::Boundary { cancelled }).0,
            _ => false,
        }),
        old(driver).next(LoopEvent::Boundary { cancelled }).1 == LoopAction::Ignore ==> (match ended {
            Iteration::Ignored(back) => back@ == canvas@ && final(panel)@ == old(panel)@
                && *final(driver) == *old(driver),
            _ => false,
        }),
        old(driver).next(LoopEvent::Boundary { cancelled }).1 == LoopAction::Draw && !old(panel)@.lends(
            canvas@,
        ) ==> (match ended {
            Iteration::Aborted(SwapError::NotLent) => final(panel)@ == old(panel)@ && *final(driver)
                == (RenderLoop { state: LoopState::Stopped, ..*old(driver) }),
            _ => false,
        }),
        old(driver).next(LoopEvent::Boundary { cancelled }).1 == LoopAction::Draw && old(panel)@.lends(
            canvas@,
        ) && old(panel)@.wf() ==> match ended {
            Iteration::Shown(next, wait) => {
                &&& final(panel)@ == old(panel)@.published(
                    frame_of(
                        canvas@,
                        font@,
                        text@,
                        x as int,
                        y as int,
                        color,
                        letter_spacing as int,
                    ),
                )
                &&& next@ == old(panel)@.displayed
                &&& wait == old(driver).interval_ms
                &&& *final(driver) == (RenderLoop {
                    state: LoopState::Idle,
                    failures: 0,
                    frames: bumped(old(driver).frames as int, u64::MAX as int) as u64,
                    ..*old(driver)
                })
            },
            Iteration::Aborted(SwapError::Backend(_)) => {
                &&& final(panel)@ == old(panel)@.retained(
                    frame_of(
                        canvas@,
                        font@,
                        text@,
                        x as int,
                        y as int,
                        color,
                        letter_spacing as int,
                    ),
                )
                &&& final(driver).failures >= final(driver).max_failures
                &&& final(driver).failures > old(driver).failures || final(driver).failures
                    == u32::MAX
                &&& *final(driver) == (RenderLoop {
                    state: LoopState::Stopped,
                    failures: final(driver).failures,
                    ..*old(driver)
                })
            },
            _ => false,
        },
{
    match driver.step(LoopEvent::Boundary { cancelled }) {
        LoopAction::Draw => {},
        LoopAction::Stop => {
            return Iteration::Stopped(canvas);
        },
        _ => {
            return Iteration::Ignored(canvas);
        },
    }
    let ghost frame = frame_of(
        canvas@,
        font@,
        text@,
        x as int,
        y as int,
        color,
        letter_spacing as int,
    );
    let ghost lent = old(panel)@.lends(canvas@);
    let mut outcome = render(panel, canvas, font, text, x, y, color, letter_spacing);
    loop
        invariant
            old(panel)@.wf() ==> panel@.wf(),
            lent == old(panel)@.lends(canvas@),
            frame == frame_of(
                canvas@,
                font@,
                text@,
                x as int,
                y as int,
                color,
                letter_spacing as int,
            ),
            old(driver).state == LoopState::Idle,
            !cancelled,
            !lent ==> driver.failures == old(driver).failures,
            *driver == (RenderLoop {
                state: LoopState::Rendering,
                failures: driver.failures,
                ..*old(driver)
            }),
            driver.failures >= old(driver).failures,
            !lent ==> outcome == Err::<Canvas, SwapError>(SwapError::NotLent) && panel@ == old(panel)@,
            lent && old(panel)@.wf() ==> match outcome {
                Ok(next) => panel@ == old(panel)@.published(frame) && next@ == old(panel)@.displayed,
                Err(SwapError::Backend(_)) => panel@ == old(panel)@.retained(frame),
                Err(SwapError::NotLent) => false,
            },
        decreases driver.max_failures - driver.failures,
    {
        match outcome {
            Ok(next) => {
                let _ = driver.step(LoopEvent::Swapped(Ok(())));
                return Iteration::Shown(next, driver.interval_ms);
            },
            Err(error) => {
                match driver.step(LoopEvent::Swapped(Err(error))) {
                    LoopAction::Retry => {
                        outcome = retry(panel);
                    },
                    _ => {
                        return Iteration::Aborted(error);
                    },
                }
            },
        }
    }
}

} // verus!
