//! What the rendering core asks of a display: a backend is set up once with
//! the panel's configuration and is then handed one frame after another.

use vstd::prelude::*;
use crate::canvas::{Canvas, CanvasView};
use crate::config::PanelConfig;

verus! {

/// Why a backend failed.
#[derive(Clone, Copy, Debug, PartialEq, Eq, Structural)]
pub enum BackendError {
    /// The display could not be set up.
    Initialize,
    /// The display did not take a frame.
    Present,
}

/// A display: a hardware driver, a simulator or a recorder. Nothing is
/// assumed of what a display answers.
pub trait Backend {
    /// Sets the display up for panels of the given configuration, which the
    /// caller has validated.
    fn initialize(&mut self, config: &PanelConfig) -> (outcome: Result<(), BackendError>)
        requires
            config.valid(),
    ;

    /// Shows `frame`.
    fn present(&mut self, frame: &Canvas) -> (outcome: Result<(), BackendError>);
}

/// The canvases that a vector of canvases holds, as mathematical values.
pub open spec fn canvas_views(frames: Seq<Canvas>) -> Seq<CanvasView> {
    Seq::new(frames.len(), |i: int| frames[i]@)
}

/// A display that keeps a copy of every frame it takes, for inspection. It
/// can be told to refuse its set-up or a number of frames, to stand for a
/// display that fails.
#[derive(Debug)]
pub struct Recorder {
    config: Option<PanelConfig>,
    frames: Vec<Canvas>,
    refuse_setup: bool,
    refusals: u32,
}

impl Recorder {
    /// A recorder that has taken no frame and refuses nothing.
    pub fn new() -> (recorder: Recorder)
        ensures
            recorder.shown() == Seq::<CanvasView>::empty(),
            recorder.configured() is None,
            !recorder.refuses_setup(),
            recorder.pending_refusals() == 0,
    {
        let recorder = Recorder {
            config: None,
            frames: Vec::new(),
            refuse_setup: false,
            refusals: 0,
        };
        assert(recorder.shown() =~= Seq::<CanvasView>::empty());
        recorder
    }

    /// The frames that the recorder has taken so far, oldest first.
    pub closed spec fn shown(&self) -> Seq<CanvasView> {
        canvas_views(self.frames@)
    }

    /// The configuration that the recorder was set up with, if it was.
    pub closed spec fn configured(&self) -> Option<PanelConfig> {
        self.config
    }

    /// Whether the recorder will refuse to be set up.
    pub closed spec fn refuses_setup(&self) -> bool {
        self.refuse_setup
    }

    /// How many of the next frames the recorder will refuse.
    pub closed spec fn pending_refusals(&self) -> nat {
        self.refusals as nat
    }

    /// Makes the recorder refuse to be set up.
    pub fn refuse_initialize(&mut self)
        ensures
            final(self).refuses_setup(),
            final(self).shown() == old(self).shown(),
            final(self).configured() == old(self).configured(),
            final(self).pending_refusals() == old(self).pending_refusals(),
    {
        self.refuse_setup = true;
    }

    /// Makes the recorder refuse the next `count` frames.
    pub fn refuse_next(&mut self, count: u32)
        ensures
            final(self).pending_refusals() == count,
            final(self).shown() == old(self).shown(),
            final(self).configured() == old(self).configured(),
            final(self).refuses_setup() == old(self).refuses_setup(),
    {
        self.refusals = count;
    }

    /// The configuration that the recorder was set up with, if it was.
    pub fn config(&self) -> (config: Option<PanelConfig>)
        ensures
            config == self.configured(),
    {
        self.config
    }

    /// The number of frames taken.
    pub fn frame_count(&self) -> (count: usize)
        ensures
            count == self.shown().len(),
    {
        self.frames.len()
    }

    /// The frame taken at position `index`, counting from the oldest.
    pub fn frame(&self, index: usize) -> (frame: Option<&Canvas>)
        ensures
            match frame {
                Some(canvas) => index < self.shown().len() && canvas@ == self.shown()[index as int],
                None => index >= self.shown().len(),
            },
    {
        if index < self.frames.len() {
            Some(&self.frames[index])
        } else {
            None
        }
    }
}

impl Backend for Recorder {
    fn initialize(&mut self, config: &PanelConfig) -> (outcome: Result<(), BackendError>)
        ensures
            final(self).shown() == old(self).shown(),
            outcome is Ok == !old(self).refuses_setup(),
            outcome is Ok ==> final(self).configured() == Some(*config),
            outcome is Err ==> outcome == Err::<(), BackendError>(BackendError::Initialize)
                && final(self).configured() == old(self).configured(),
            final(self).refuses_setup() == old(self).refuses_setup(),
            final(self).pending_refusals() == old(self).pending_refusals(),
    {
        if self.refuse_setup {
            Err(BackendError::Initialize)
        } else {
            self.config = Some(*config);
            Ok(())
        }
    }

    fn present(&mut self, frame: &Canvas) -> (outcome: Result<(), BackendError>)
        ensures
            outcome is Ok ==> final(self).shown() == old(self).shown().push(frame@),
            outcome is Err ==> final(self).shown() == old(self).shown(),
            outcome is Ok == (old(self).pending_refusals() == 0),
            outcome is Err ==> outcome == Err::<(), BackendError>(BackendError::Present)
                && final(self).pending_refusals() == old(self).pending_refusals() - 1,
            outcome is Ok ==> final(self).pending_refusals() == 0,
            final(self).configured() == old(self).configured(),
            final(self).refuses_setup() == old(self).refuses_setup(),
    {
        if self.refusals > 0 {
            self.refusals = self.refusals - 1;
            Err(BackendError::Present)
        } else {
            let ghost before = canvas_views(self.frames@);
            self.frames.push(frame.snapshot());
            assert(canvas_views(self.frames@) =~= before.push(frame@));
            Ok(())
        }
    }
}

} // verus!
