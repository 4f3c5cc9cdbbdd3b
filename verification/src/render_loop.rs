//! How a render loop is set up before it runs.

use crate::element::Output;
use vstd::prelude::*;

verus! {

/// The time between two frames, in milliseconds, unless it is asked otherwise.
pub const FRAME_INTERVAL_MILLIS: u64 = 16;

/// How often frames are rendered.
#[derive(Clone, Copy, Debug, PartialEq, Eq, Structural)]
pub enum Throttle {
    /// One frame in so many milliseconds.
    Millis(u64),
    /// So many frames in a second.
    FramesPerSecond(u32),
    /// As often as there is something to render.
    Unlimited,
}

/// What was asked of a render loop.
#[derive(Clone, Copy, Debug, PartialEq, Eq, Structural)]
pub struct RenderLoopConfig {
    /// Whether the loop takes the whole screen.
    pub fullscreen: bool,
    /// Whether the mouse is captured; it is by default where the loop takes the whole
    /// screen.
    pub mouse_capture: Option<bool>,
    /// Whether Ctrl+C does not end the loop.
    pub ignore_ctrl_c: bool,
    /// Whether Ctrl+Z suspends the process.
    pub suspend_on_ctrl_z: bool,
    /// The stream that frames are written to.
    pub output: Output,
    /// A writer instead of standard output, named by a number.
    pub stdout_writer: Option<u64>,
    /// A writer instead of standard error, named by a number.
    pub stderr_writer: Option<u64>,
    /// How often frames are rendered.
    pub throttle: Throttle,
    /// Called after each frame, named by a number.
    pub frame_profile: Option<u64>,
}

/// What starts a render loop.
#[derive(Clone, Copy, Debug, PartialEq, Eq, Structural)]
pub struct RenderLoopStart {
    /// What was asked.
    pub config: RenderLoopConfig,
    /// Whether the mouse is captured.
    pub mouse_capture: bool,
    /// Whether the mouse has to be captured apart from taking the whole screen.
    pub enable_mouse_capture: bool,
}

/// Where a render loop is.
#[derive(Clone, Copy, Debug, PartialEq, Eq, Structural)]
pub enum RenderLoopFutureState {
    /// It has ended, or could not be started.
    Empty,
    /// It was not started.
    Init(RenderLoopConfig),
    /// It runs.
    Running,
}

/// A render loop.
#[derive(Clone, Copy, Debug, PartialEq, Eq, Structural)]
pub struct RenderLoopFuture {
    state: RenderLoopFutureState,
}

/// What a poll of a render loop does.
#[derive(Clone, Copy, Debug, PartialEq, Eq, Structural)]
pub enum RenderLoopStep {
    /// The loop is started.
    Start(RenderLoopStart),
    /// The loop that runs is polled.
    Poll,
}

impl RenderLoopConfig {
    /// What is asked by default.
    pub open spec fn plain() -> RenderLoopConfig {
        RenderLoopConfig {
            fullscreen: false,
            mouse_capture: None,
            ignore_ctrl_c: false,
            suspend_on_ctrl_z: false,
            output: Output::Stdout,
            stdout_writer: None,
            stderr_writer: None,
            throttle: Throttle::Millis(FRAME_INTERVAL_MILLIS),
            frame_profile: None,
        }
    }

    /// What starts the loop. The mouse is captured where that was asked, and by default where
    /// the loop takes the whole screen.
    pub open spec fn start(self) -> RenderLoopStart {
        let mouse_capture: bool = match self.mouse_capture {
            Some(captured) => captured,
            None => self.fullscreen,
        };
        RenderLoopStart {
            config: self,
            mouse_capture,
            enable_mouse_capture: mouse_capture && !self.fullscreen,
        }
    }
}

impl Default for RenderLoopConfig {
    fn default() -> (r: Self)
        ensures
            r == RenderLoopConfig::plain(),
    {
        RenderLoopConfig {
            fullscreen: false,
            mouse_capture: None,
            ignore_ctrl_c: false,
            suspend_on_ctrl_z: false,
            output: Output::Stdout,
            stdout_writer: None,
            stderr_writer: None,
            throttle: Throttle::Millis(FRAME_INTERVAL_MILLIS),
            frame_profile: None,
        }
    }
}

impl RenderLoopFuture {
    /// Where the loop is.
    pub closed spec fn at(self) -> RenderLoopFutureState {
        self.state
    }

    /// The loop was not started.
    pub open spec fn is_init(self) -> bool {
        self.at() is Init
    }

    /// What was asked of the loop.
    pub open spec fn config(self) -> RenderLoopConfig {
        self.at()->Init_0
    }

    /// A loop that was not started, and of which nothing was asked.
    pub fn new() -> (r: Self)
        ensures
            r.is_init(),
            r.config() == RenderLoopConfig::plain(),
    {
        RenderLoopFuture { state: RenderLoopFutureState::Init(RenderLoopConfig::default()) }
    }

    /// Limits how often frames are rendered.
    pub fn max_fps(self, fps: u32) -> (r: Self)
        requires
            self.is_init(),
            fps > 0,
        ensures
            r.is_init(),
            r.config() == (RenderLoopConfig {
                throttle: Throttle::FramesPerSecond(fps),
                ..self.config()
            }),
    {
        let mut config = asked(&self);
        config.throttle = Throttle::FramesPerSecond(fps);
        RenderLoopFuture { state: RenderLoopFutureState::Init(config) }
    }

    /// Renders as often as there is something to render.
    pub fn without_throttle(self) -> (r: Self)
        requires
            self.is_init(),
        ensures
            r.is_init(),
            r.config() == (RenderLoopConfig { throttle: Throttle::Unlimited, ..self.config() }),
    {
        let mut config = asked(&self);
        config.throttle = Throttle::Unlimited;
        RenderLoopFuture { state: RenderLoopFutureState::Init(config) }
    }

    /// Asks for a call after each frame.
    pub fn on_frame_profile(self, callback: u64) -> (r: Self)
        requires
            self.is_init(),
        ensures
            r.is_init(),
            r.config() == (RenderLoopConfig { frame_profile: Some(callback), ..self.config() }),
    {
        let mut config = asked(&self);
        config.frame_profile = Some(callback);
        RenderLoopFuture { state: RenderLoopFutureState::Init(config) }
    }

    /// Takes the whole screen.
    pub fn fullscreen(self) -> (r: Self)
        requires
            self.is_init(),
        ensures
            r.is_init(),
            r.config() == (RenderLoopConfig { fullscreen: true, ..self.config() }),
    {
        let mut config = asked(&self);
        config.fullscreen = true;
        RenderLoopFuture { state: RenderLoopFutureState::Init(config) }
    }

    /// Captures the mouse.
    pub fn enable_mouse_capture(self) -> (r: Self)
        requires
            self.is_init(),
        ensures
            r.is_init(),
            r.config() == (RenderLoopConfig { mouse_capture: Some(true), ..self.config() }),
    {
        let mut config = asked(&self);
        config.mouse_capture = Some(true);
        RenderLoopFuture { state: RenderLoopFutureState::Init(config) }
    }

    /// Does not capture the mouse.
    pub fn disable_mouse_capture(self) -> (r: Self)
        requires
            self.is_init(),
        ensures
            r.is_init(),
            r.config() == (RenderLoopConfig { mouse_capture: Some(false), ..self.config() }),
    {
        let mut config = asked(&self);
        config.mouse_capture = Some(false);
        RenderLoopFuture { state: RenderLoopFutureState::Init(config) }
    }

    /// Keeps Ctrl+C from ending the loop.
    pub fn ignore_ctrl_c(self) -> (r: Self)
        requires
            self.is_init(),
        ensures
            r.is_init(),
            r.config() == (RenderLoopConfig { ignore_ctrl_c: true, ..self.config() }),
    {
        let mut config = asked(&self);
        config.ignore_ctrl_c = true;
        RenderLoopFuture { state: RenderLoopFutureState::Init(config) }
    }

    /// Lets Ctrl+Z suspend the process.
    pub fn suspend_on_ctrl_z(self) -> (r: Self)
        requires
            self.is_init(),
        ensures
            r.is_init(),
            r.config() == (RenderLoopConfig { suspend_on_ctrl_z: true, ..self.config() }),
    {
        let mut config = asked(&self);
        config.suspend_on_ctrl_z = true;
        RenderLoopFuture { state: RenderLoopFutureState::Init(config) }
    }

    /// Writes to a writer instead of standard output.
    pub fn stdout(self, writer: u64) -> (r: Self)
        requires
            self.is_init(),
        ensures
            r.is_init(),
            r.config() == (RenderLoopConfig { stdout_writer: Some(writer), ..self.config() }),
    {
        let mut config = asked(&self);
        config.stdout_writer = Some(writer);
        RenderLoopFuture { state: RenderLoopFutureState::Init(config) }
    }

    /// Writes to a writer instead of standard error.
    pub fn stderr(self, writer: u64) -> (r: Self)
        requires
            self.is_init(),
        ensures
            r.is_init(),
            r.config() == (RenderLoopConfig { stderr_writer: Some(writer), ..self.config() }),
    {
        let mut config = asked(&self);
        config.stderr_writer = Some(writer);
        RenderLoopFuture { state: RenderLoopFutureState::Init(config) }
    }

    /// Chooses the stream that frames are written to.
    pub fn output(self, output: Output) -> (r: Self)
        requires
            self.is_init(),
        ensures
            r.is_init(),
            r.config() == (RenderLoopConfig { output, ..self.config() }),
    {
        let mut config = asked(&self);
        config.output = output;
        RenderLoopFuture { state: RenderLoopFutureState::Init(config) }
    }

    /// What a poll does: the first one starts the loop.
    pub fn poll(&mut self) -> (step: RenderLoopStep)
        requires
            !(old(self).at() is Empty),
        ensures
            final(self).at() is Running,
            step == if old(self).is_init() {
                RenderLoopStep::Start(old(self).config().start())
            } else {
                RenderLoopStep::Poll
            },
    {
        match self.state {
            RenderLoopFutureState::Init(config) => {
                let mouse_capture: bool = match config.mouse_capture {
                    Some(captured) => captured,
                    None => config.fullscreen,
                };
                self.state = RenderLoopFutureState::Running;
                RenderLoopStep::Start(
                    RenderLoopStart {
                        config,
                        mouse_capture,
                        enable_mouse_capture: mouse_capture && !config.fullscreen,
                    },
                )
            },
            _ => RenderLoopStep::Poll,
        }
    }

    /// Notes that the loop could not be started.
    pub fn fail(&mut self)
        ensures
            final(self).at() is Empty,
    {
        self.state = RenderLoopFutureState::Empty;
    }
}

/// What was asked of a loop that was not started.
fn asked(render_loop: &RenderLoopFuture) -> (config: RenderLoopConfig)
    requires
        render_loop.is_init(),
    ensures
        config == render_loop.config(),
{
    let mut config = RenderLoopConfig::default();
    if let RenderLoopFutureState::Init(found) = render_loop.state {
        config = found;
    }
    config
}

/// A loop that takes the whole screen captures the mouse unless it is asked not to, and needs
/// no request of its own for it; another loop captures it only where it is asked to.
pub proof fn lemma_mouse_capture_follows_screen(config: RenderLoopConfig)
    ensures
        config.start().mouse_capture == (config.mouse_capture == Some(true) || (config.fullscreen
            && config.mouse_capture is None)),
        config.fullscreen ==> !config.start().enable_mouse_capture,
        !config.fullscreen ==> config.start().enable_mouse_capture == (config.mouse_capture
            == Some(true)),
{
}

/// A loop of which nothing was asked is not fullscreen, ends on Ctrl+C, is not suspended, and
/// writes to standard output.
pub proof fn lemma_plain_loop()
    ensures
        ({
            let config = RenderLoopConfig::plain();
            &&& !config.fullscreen && config.mouse_capture is None
            &&& !config.ignore_ctrl_c && !config.suspend_on_ctrl_z
            &&& config.output == Output::Stdout
            &&& config.stdout_writer is None && config.stderr_writer is None
            &&& config.frame_profile is None
            &&& config.throttle == Throttle::Millis(16)
        }),
{
}

/// A loop starts with what was asked of it. The mouse is captured where that was asked for, and
/// without a word on it in fullscreen; outside of it the capture has to be enabled.
pub proof fn lemma_loop_starts_as_asked(config: RenderLoopConfig)
    ensures
        config.start().config == config,
        config.mouse_capture matches Some(captured) ==> config.start().mouse_capture == captured,
        config.mouse_capture is None ==> config.start().mouse_capture == config.fullscreen,
        config.start().enable_mouse_capture == (config.start().mouse_capture
            && !config.fullscreen),
{
}

} // verus!
