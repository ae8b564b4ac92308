//! The panel: the logical display device. It owns the two canvases of a
//! double buffer and the display they are shown on.

use vstd::prelude::*;
use crate::backend::{Backend, BackendError};
use crate::canvas::{BufferId, Canvas, CanvasView};
use crate::color::Color;
use crate::config::{lemma_valid_geometry, ConfigError, PanelConfig};

verus! {

/// Why a panel could not be built.
#[derive(Clone, Copy, Debug, PartialEq, Eq, Structural)]
pub enum PanelError {
    /// The configuration is invalid.
    Config(ConfigError),
    /// The display could not be set up.
    Backend(BackendError),
}

/// Why a swap did not publish a frame.
#[derive(Clone, Copy, Debug, PartialEq, Eq, Structural)]
pub enum SwapError {
    /// The canvas is not the one that the panel has handed out.
    NotLent,
    /// The display did not take the frame.
    Backend(BackendError),
}

/// A panel's buffers as a mathematical value: the canvas on display and,
/// unless the caller holds it, the other one.
pub struct PanelView {
    pub config: PanelConfig,
    pub displayed: CanvasView,
    pub spare: Option<CanvasView>,
}

impl PanelView {
    /// Whether `canvas` has the size that the configuration gives.
    pub open spec fn sized(self, canvas: CanvasView) -> bool {
        &&& canvas.wf()
        &&& canvas.width == self.config.canvas_width()
        &&& canvas.height == self.config.canvas_height()
    }

    /// Whether the configuration is valid and the buffers are the two that
    /// it calls for: both of its size, and not the same one.
    pub open spec fn wf(self) -> bool {
        &&& self.config.valid()
        &&& self.sized(self.displayed)
        &&& self.spare is Some ==> self.sized(self.spare->0) && self.spare->0.id
            == self.displayed.id.other()
    }

    /// The buffer that is not on display, which either the panel holds or
    /// the caller.
    pub open spec fn offscreen_id(self) -> BufferId {
        self.displayed.id.other()
    }

    /// Whether `canvas` is the buffer that the panel has handed out: the
    /// panel holds none, and the canvas is the one not on display and has its
    /// size.
    pub open spec fn lends(self, canvas: CanvasView) -> bool {
        &&& self.spare is None
        &&& canvas.id == self.offscreen_id()
        &&& canvas.width == self.displayed.width
        &&& canvas.height == self.displayed.height
    }

    /// The buffers of a new panel: two black canvases, `B` on display and
    /// `A` ready to be drawn into.
    pub open spec fn fresh(config: PanelConfig) -> PanelView {
        PanelView {
            config,
            displayed: blank(BufferId::B, config),
            spare: Some(blank(BufferId::A, config)),
        }
    }

    /// The panel after the caller has taken the off-screen canvas.
    pub open spec fn lent(self) -> PanelView {
        PanelView { spare: None, ..self }
    }

    /// The panel after `drawn` came back and went on display.
    pub open spec fn published(self, drawn: CanvasView) -> PanelView {
        PanelView { displayed: drawn, spare: None, ..self }
    }

    /// The panel after `drawn` came back and the display did not take it:
    /// the panel keeps it as the off-screen canvas.
    pub open spec fn retained(self, drawn: CanvasView) -> PanelView {
        PanelView { spare: Some(drawn), ..self }
    }

    /// What a swap of `drawn` makes of the panel and what it returns, given
    /// what the display answered.
    pub open spec fn settled(self, drawn: CanvasView, presented: Result<(), BackendError>) -> (
        PanelView,
        Result<CanvasView, SwapError>,
    ) {
        if !self.lends(drawn) {
            (self, Err(SwapError::NotLent))
        } else {
            match presented {
                Ok(_) => (self.published(drawn), Ok(self.displayed)),
                Err(error) => (self.retained(drawn), Err(SwapError::Backend(error))),
            }
        }
    }
}

/// A black canvas of the size that `config` gives.
pub open spec fn blank(id: BufferId, config: PanelConfig) -> CanvasView {
    CanvasView {
        id,
        width: config.canvas_width(),
        height: config.canvas_height(),
        background: Color { red: 0, green: 0, blue: 0 },
        pixels: Seq::new(
            (config.canvas_width() * config.canvas_height()) as nat,
            |i: int| Color { red: 0, green: 0, blue: 0 },
        ),
    }
}

/// What building a panel gives, given what the display answered to its
/// set-up: the first fault of the configuration, else the display's error,
/// else a new panel's buffers.
pub open spec fn assembled(config: PanelConfig, initialized: Result<(), BackendError>) -> Result<
    PanelView,
    PanelError,
> {
    match config.fault() {
        Some(error) => Err(PanelError::Config(error)),
        None => match initialized {
            Ok(_) => Ok(PanelView::fresh(config)),
            Err(error) => Err(PanelError::Backend(error)),
        },
    }
}

/// A valid configuration on a display that accepts it always gives a
/// panel, and the canvas that the panel hands out first is as wide as the
/// chain's modules side by side and as high as one module.
pub proof fn lemma_valid_config_builds(config: PanelConfig)
    requires
        config.valid(),
    ensures
        assembled(config, Ok(())) == Ok::<PanelView, PanelError>(PanelView::fresh(config)),
        PanelView::fresh(config).wf(),
        PanelView::fresh(config).spare is Some,
        PanelView::fresh(config).spare->0.width == config.chain_length
            * config.hardware_mapping.module_width(config.rows as int),
        PanelView::fresh(config).spare->0.height == config.rows,
        PanelView::fresh(config).displayed.width == PanelView::fresh(config).spare->0.width,
        PanelView::fresh(config).displayed.height == config.rows,
{
    lemma_valid_geometry(config);
}

/// A configuration whose rows or chain length are not positive, or whose
/// PWM bits lie outside the accepted range, is refused with a configuration
/// error whatever the display answers, so no panel and no buffer comes of it.
pub proof fn lemma_invalid_config_refused(
    config: PanelConfig,
    initialized: Result<(), BackendError>,
)
    requires
        config.rows <= 0 || config.chain_length <= 0 || config.pwm_bits < 1 || config.pwm_bits
            > crate::config::MAX_PWM_BITS,
    ensures
        !config.valid(),
        assembled(config, initialized) is Err,
        assembled(config, initialized)->Err_0 is Config,
        assembled(config, initialized) == Err::<PanelView, PanelError>(
            PanelError::Config(config.fault()->0),
        ),
{
}

/// A swap never returns the canvas that it was given, and two swaps in a
/// row bring the pair of buffers back to where it was: with `first` lent out
/// and `second` on display, swapping `first` returns `second`, and swapping
/// `second`, drawn into or not, returns `first`. At every stage the canvas
/// on display and the canvas off screen are the two buffers of the pair.
pub proof fn lemma_swap_round_trip(panel: PanelView, first: CanvasView, redrawn: CanvasView)
    requires
        panel.wf(),
        panel.lends(first),
        first.wf(),
        redrawn.wf(),
        redrawn.id == panel.displayed.id,
        redrawn.width == panel.displayed.width,
        redrawn.height == panel.displayed.height,
    ensures
        panel.settled(first, Ok(())).1 == Ok::<CanvasView, SwapError>(panel.displayed),
        panel.displayed.id != first.id,
        panel.settled(first, Ok(())).0.displayed == first,
        panel.settled(first, Ok(())).0.wf(),
        panel.settled(first, Ok(())).0.lends(redrawn),
        panel.settled(first, Ok(())).0.settled(redrawn, Ok(())).1 == Ok::<CanvasView, SwapError>(
            first,
        ),
        panel.settled(first, Ok(())).0.settled(redrawn, Ok(())).0.displayed == redrawn,
        panel.settled(first, Ok(())).0.settled(redrawn, Ok(())).0.wf(),
        panel.settled(first, Ok(())).0.settled(redrawn, Ok(())).0.offscreen_id() == first.id,
        panel.settled(first, Ok(())).0.settled(redrawn, Ok(())).0.displayed.id
            == panel.displayed.id,
{
}

/// Whatever the display answers, a swap leaves the panel with the same two
/// buffers: the canvas on display and the one off screen, held by the panel
/// or by the caller, are never the same one, and no third one appears.
pub proof fn lemma_swap_keeps_pair(
    panel: PanelView,
    drawn: CanvasView,
    presented: Result<(), BackendError>,
)
    requires
        panel.wf(),
        drawn.wf(),
    ensures
        panel.settled(drawn, presented).0.wf(),
        panel.settled(drawn, presented).0.offscreen_id() != panel.settled(
            drawn,
            presented,
        ).0.displayed.id,
        match panel.settled(drawn, presented).1 {
            Ok(back) => back == panel.displayed && back.id != drawn.id && back.id
                == panel.settled(drawn, presented).0.offscreen_id(),
            Err(_) => panel.settled(drawn, presented).0.displayed == panel.displayed,
        },
{
}

/// The logical display device.
#[derive(Debug)]
pub struct Panel<B: Backend> {
    config: PanelConfig,
    backend: B,
    displayed: Canvas,
    spare: Option<Canvas>,
}

impl<B: Backend> View for Panel<B> {
    type V = PanelView;

    closed spec fn view(&self) -> PanelView {
        PanelView {
            config: self.config,
            displayed: self.displayed@,
            spare: match self.spare {
                Some(canvas) => Some(canvas@),
                None => None,
            },
        }
    }
}

impl<B: Backend> Panel<B> {
    /// The display that the panel shows its frames on.
    pub closed spec fn display(&self) -> B {
        self.backend
    }

    /// Builds a panel on a display whose set-up the caller has performed,
    /// with `initialized` as its answer. An invalid configuration is refused
    /// before anything else is looked at, and no buffer is allocated for it.
    pub fn assemble(config: PanelConfig, backend: B, initialized: Result<(), BackendError>) -> (made:
        Result<Panel<B>, PanelError>)
        ensures
            match made {
                Ok(panel) => assembled(config, initialized) == Ok::<PanelView, PanelError>(panel@)
                    && panel@.wf() && panel.display() == backend,
                Err(error) => assembled(config, initialized) == Err::<PanelView, PanelError>(
                    error,
                ),
            },
    {
        match config.validate() {
            Err(error) => Err(PanelError::Config(error)),
            Ok(_) => match initialized {
                Err(error) => Err(PanelError::Backend(error)),
                Ok(_) => {
                    proof {
                        lemma_valid_geometry(config);
                    }
                    let width: i32 = config.chain_length * config.rows;
                    let displayed = Canvas::allocate(
                        BufferId::B,
                        width,
                        config.rows,
                        Color::black(),
                    );
                    let spare = Canvas::allocate(BufferId::A, width, config.rows, Color::black());
                    assert(displayed@ =~= blank(BufferId::B, config)) by {
                        assert(displayed@.pixels =~= blank(BufferId::B, config).pixels);
                    }
                    assert(spare@ =~= blank(BufferId::A, config)) by {
                        assert(spare@.pixels =~= blank(BufferId::A, config).pixels);
                    }
                    Ok(Panel { config, backend, displayed, spare: Some(spare) })
                },
            },
        }
    }

    /// Builds a panel: validates the configuration, sets the display up with
    /// it and allocates the two canvases. An invalid configuration is refused
    /// before the display is touched. For a valid one the outcome is the
    /// display's: a new panel, or the display's error.
    pub fn new(config: PanelConfig, backend: B) -> (made: Result<Panel<B>, PanelError>)
        ensures
            match made {
                Ok(panel) => config.valid() && panel@ == PanelView::fresh(config) && panel@.wf(),
                Err(PanelError::Config(error)) => config.fault() == Some(error),
                Err(PanelError::Backend(_)) => config.valid(),
            },
    {
        match config.validate() {
            Err(error) => Err(PanelError::Config(error)),
            Ok(_) => {
                let mut backend = backend;
                let initialized = backend.initialize(&config);
                Panel::assemble(config, backend, initialized)
            },
        }
    }

    /// The configuration that the panel was built with.
    pub fn config(&self) -> (config: PanelConfig)
        ensures
            config == self@.config,
    {
        self.config
    }

    /// The display that the panel shows its frames on.
    pub fn backend(&self) -> (backend: &B)
        ensures
            *backend == self.display(),
    {
        &self.backend
    }

    /// The canvas that is on display.
    pub fn displayed(&self) -> (canvas: &Canvas)
        ensures
            canvas@ == self@.displayed,
    {
        &self.displayed
    }

    /// Hands out the canvas that is not on display, for the caller to draw
    /// into. Returns `None` while the caller already holds it.
    pub fn offscreen_canvas(&mut self) -> (canvas: Option<Canvas>)
        ensures
            final(self)@ == old(self)@.lent(),
            final(self).display() == old(self).display(),
            match canvas {
                Some(lent) => old(self)@.spare == Some(lent@),
                None => old(self)@.spare is None,
            },
            old(self)@.wf() && canvas is Some ==> final(self)@.lends(canvas->0@),
    {
        self.spare.take()
    }

    /// Completes a swap of `drawn` whose frame the caller has offered to the
    /// display, with `presented` as its answer. Where the display took the
    /// frame, `drawn` goes on display and the canvas that was on display is
    /// returned. Where it did not, the panel keeps `drawn` as its off-screen
    /// canvas, to be handed out again. A canvas that the panel has not handed
    /// out is refused and changes nothing.
    pub fn settle(&mut self, drawn: Canvas, presented: Result<(), BackendError>) -> (back: Result<
        Canvas,
        SwapError,
    >)
        ensures
            final(self)@ == old(self)@.settled(drawn@, presented).0,
            final(self).display() == old(self).display(),
            match back {
                Ok(canvas) => old(self)@.settled(drawn@, presented).1 == Ok::<
                    CanvasView,
                    SwapError,
                >(canvas@),
                Err(error) => old(self)@.settled(drawn@, presented).1 == Err::<
                    CanvasView,
                    SwapError,
                >(error),
            },
            old(self)@.wf() ==> final(self)@.wf(),
    {
        if !self.is_lent(&drawn) {
            return Err(SwapError::NotLent);
        }
        match presented {
            Ok(_) => {
                let mut front = drawn;
                core::mem::swap(&mut self.displayed, &mut front);
                Ok(front)
            },
            Err(error) => {
                self.spare = Some(drawn);
                Err(SwapError::Backend(error))
            },
        }
    }

    /// Publishes `drawn`: offers it to the display, and where the display
    /// takes it, puts it on display and returns the canvas that was on
    /// display, which the caller may now draw into. Where the display fails,
    /// the panel keeps `drawn` as its off-screen canvas and returns the
    /// display's error. A canvas that the panel has not handed out is refused
    /// without the display being touched.
    pub fn swap(&mut self, drawn: Canvas) -> (back: Result<Canvas, SwapError>)
        ensures
            old(self)@.wf() ==> final(self)@.wf(),
            !old(self)@.lends(drawn@) ==> back == Err::<Canvas, SwapError>(SwapError::NotLent)
                && final(self)@ == old(self)@ && final(self).display() == old(self).display(),
            old(self)@.lends(drawn@) ==> match back {
                Ok(canvas) => final(self)@ == old(self)@.published(drawn@) && canvas@ == old(
                    self,
                )@.displayed && canvas@.id != drawn@.id,
                Err(SwapError::Backend(_)) => final(self)@ == old(self)@.retained(drawn@),
                Err(SwapError::NotLent) => false,
            },
    {
        if !self.is_lent(&drawn) {
            return Err(SwapError::NotLent);
        }
        let presented = self.backend.present(&drawn);
        self.settle(drawn, presented)
    }

    fn is_lent(&self, canvas: &Canvas) -> (lent: bool)
        ensures
            lent == self@.lends(canvas@),
            canvas@.wf(),
    {
        proof {
            use_type_invariant(canvas);
        }
        self.spare.is_none() && canvas.id() == self.displayed.id().other() && canvas.width()
            == self.displayed.width() && canvas.height() == self.displayed.height()
    }
}

} // verus!
