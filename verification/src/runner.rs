//! The frame orchestrator's state machine. The embedding application owns
//! the window loop, the GPU state and the worker thread; every decision —
//! how input events change the state, when to exit, how job results are
//! integrated, how many logic updates a frame runs and what draw stream is
//! submitted — is made here.

use vstd::prelude::*;
use crate::Texture;
use crate::input::Input;
use crate::input::Key;
use crate::input::clear_effect;
use crate::input::press_effect;
use crate::input::release_effect;
use crate::input::scroll_effect;
use crate::queue::FinishedJob;
use crate::queue::JobQueue;
use crate::queue::JobRequest;
use crate::queue::JobToken;
use crate::renderer::DrawPlan;
use crate::renderer::Renderer;
use crate::renderer::insts_in_table;
use crate::renderer::insts_wf;
use crate::renderer::runs_partition;
use crate::renderer::sorted_by_texture;
use crate::renderer::tex_filter;
use crate::texture::TextureProcessor;
use crate::timer::FRAME_PERIOD_MICROS;
use crate::timer::MAX_BACKLOG_MICROS;
use crate::timer::Timer;

verus! {

/// What game logic sees of the runtime: the job queue for submitting loads,
/// the read-only input state, and the current surface size.
pub struct Ctx<P> {
    job_queue: JobQueue<P>,
    input: Input,
    screen_size: (u32, u32),
}

impl<P> Ctx<P> {
    pub closed spec fn spec_job_queue(&self) -> JobQueue<P> {
        self.job_queue
    }

    pub closed spec fn spec_input(&self) -> Input {
        self.input
    }

    pub closed spec fn spec_screen_size(&self) -> (u32, u32) {
        self.screen_size
    }

    /// The queue and the input state are well-formed.
    pub open spec fn wf(&self) -> bool {
        &&& self.spec_job_queue().wf()
        &&& self.spec_input().wf()
    }

    /// The job queue, for submitting asynchronous loads.
    pub fn job_queue(&mut self) -> (queue: &mut JobQueue<P>)
        ensures
            *queue == old(self).spec_job_queue(),
            final(self).spec_job_queue() == *final(queue),
            final(self).spec_input() == old(self).spec_input(),
            final(self).spec_screen_size() == old(self).spec_screen_size(),
    {
        &mut self.job_queue
    }

    /// The input state, read-only to game logic.
    pub fn input(&self) -> (input: &Input)
        ensures
            *input == self.spec_input(),
    {
        &self.input
    }

    /// The current surface size in physical pixels.
    pub fn screen_size(&self) -> (size: (u32, u32))
        ensures
            size == self.spec_screen_size(),
    {
        self.screen_size
    }
}

/// The four callbacks of the embedding game. The orchestrator calls them;
/// an implementation may use the context's public interface freely, which
/// keeps the context well-formed and can change nothing but the job queue.
pub trait Game<P: TextureProcessor>: Sized {
    /// Called once before the loop starts.
    fn on_start(&mut self, ctx: &mut Ctx<P>)
        requires
            old(ctx).wf(),
        ensures
            final(ctx).wf(),
            final(ctx).spec_input() == old(ctx).spec_input(),
            final(ctx).spec_screen_size() == old(ctx).spec_screen_size(),
        ;

    /// Called exactly once per drained load result, with the result's token
    /// and the new texture's table index.
    fn on_texture_loaded(&mut self, ctx: &mut Ctx<P>, job: JobToken, texture: Texture)
        requires
            old(ctx).wf(),
        ensures
            final(ctx).wf(),
            final(ctx).spec_input() == old(ctx).spec_input(),
            final(ctx).spec_screen_size() == old(ctx).spec_screen_size(),
        ;

    /// One fixed-timestep logic update.
    fn update(&mut self, ctx: &mut Ctx<P>)
        requires
            old(ctx).wf(),
        ensures
            final(ctx).wf(),
            final(ctx).spec_input() == old(ctx).spec_input(),
            final(ctx).spec_screen_size() == old(ctx).spec_screen_size(),
        ;

    /// Issue this frame's draw calls into the renderer.
    fn draw(&mut self, ctx: &mut Ctx<P>, renderer: &mut Renderer)
        requires
            old(ctx).wf(),
            old(renderer).wf(),
        ensures
            final(ctx).wf(),
            final(ctx).spec_input() == old(ctx).spec_input(),
            final(ctx).spec_screen_size() == old(ctx).spec_screen_size(),
            final(renderer).wf(),
            final(renderer).dims_seq() == old(renderer).dims_seq(),
        ;
}

/// A window or input event, as the embedding application reports it.
/// Scroll deltas arrive sign-normalized: one signal per discrete step.
pub enum WindowSignal {
    CloseRequested,
    KeyPressed(Key),
    KeyReleased(Key),
    MouseLeft(bool),
    MouseRight(bool),
    ScrollUp,
    ScrollDown,
    CursorMoved(u32, u32),
    CursorLeft,
    FocusLost,
}

/// What the window loop should do after a signal was handled.
#[derive(PartialEq, Eq, Structural, Debug, Clone, Copy)]
pub enum SignalAction {
    Proceed,
    Exit,
}

/// The outcome the GPU backend reported for one presented frame.
#[derive(PartialEq, Eq, Structural, Debug, Clone, Copy)]
pub enum RenderStatus {
    Presented,
    SurfaceLost,
    OutOfMemory,
    OtherError,
}

/// What the loop should do about a render outcome: carry on (skipping the
/// frame on an ordinary error), rebuild the swap surface, or shut down.
#[derive(PartialEq, Eq, Structural, Debug, Clone, Copy)]
pub enum RenderAction {
    Proceed,
    RecreateSurface,
    Exit,
}

/// Decide how the loop reacts to a reported render outcome: surface loss is
/// recoverable, out-of-memory is fatal, any other error only skips the
/// frame (the application logs it).
pub fn render_outcome(status: RenderStatus) -> (action: RenderAction)
    ensures
        action == match status {
            RenderStatus::Presented => RenderAction::Proceed,
            RenderStatus::SurfaceLost => RenderAction::RecreateSurface,
            RenderStatus::OutOfMemory => RenderAction::Exit,
            RenderStatus::OtherError => RenderAction::Proceed,
        },
{
    match status {
        RenderStatus::Presented => RenderAction::Proceed,
        RenderStatus::SurfaceLost => RenderAction::RecreateSurface,
        RenderStatus::OutOfMemory => RenderAction::Exit,
        RenderStatus::OtherError => RenderAction::Proceed,
    }
}

/// The load results among the first `k` drained jobs, in order, together
/// with whether a terminal quit was observed among them; processing stops
/// at the first quit.
pub open spec fn drain_result(completed: Seq<FinishedJob>, k: int) -> (Seq<FinishedJob>, bool)
    decreases k,
{
    if k <= 0 {
        (Seq::<FinishedJob>::empty(), false)
    } else {
        let prev = drain_result(completed, k - 1);
        if prev.1 {
            prev
        } else {
            match completed[k - 1] {
                FinishedJob::Quit => (prev.0, true),
                FinishedJob::TextureLoaded { .. } => (prev.0.push(completed[k - 1]), false),
            }
        }
    }
}

/// FIFO result delivery: while no terminal quit appears, draining changes
/// nothing about order or content — the loads handed to the game are
/// exactly the completed jobs, in completion order (which the single worker
/// makes equal to submission order).
pub proof fn lemma_drain_result_no_quit(completed: Seq<FinishedJob>, k: int)
    requires
        0 <= k <= completed.len(),
        forall|i: int| 0 <= i < k ==> !((#[trigger] completed[i]) is Quit),
    ensures
        drain_result(completed, k).0 =~= completed.subrange(0, k),
        !drain_result(completed, k).1,
    decreases k,
{
    if k > 0 {
        lemma_drain_result_no_quit(completed, k - 1);
        assert(completed.subrange(0, k) =~= completed.subrange(0, k - 1).push(
            completed[k - 1],
        ));
    }
}

/// The drain stops at the first terminal quit: every load completed before
/// it is delivered, in completion order, and nothing after it is.
pub proof fn lemma_drain_stops_at_first_quit(completed: Seq<FinishedJob>, q: int)
    requires
        0 <= q < completed.len(),
        completed[q] is Quit,
        forall|i: int| 0 <= i < q ==> !((#[trigger] completed[i]) is Quit),
    ensures
        drain_result(completed, completed.len() as int).0 =~= completed.subrange(0, q),
        drain_result(completed, completed.len() as int).1,
{
    lemma_drain_result_no_quit(completed, q);
    assert(drain_result(completed, q + 1) == (drain_result(completed, q).0, true));
    lemma_drain_result_stable(completed, q + 1, completed.len() as int);
}

/// The position of the first terminal quit among the first `k` drained
/// jobs, or `k` if there is none.
pub open spec fn first_quit_before(completed: Seq<FinishedJob>, k: int) -> int
    decreases k,
{
    if k <= 0 {
        0
    } else if first_quit_before(completed, k - 1) < k - 1 {
        first_quit_before(completed, k - 1)
    } else if completed[k - 1] is Quit {
        k - 1
    } else {
        k
    }
}

/// The drain delivers exactly the loads before the first terminal quit, as
/// they are: the jobs of the prefix up to `first_quit_before`.
proof fn lemma_drain_result_characterized(completed: Seq<FinishedJob>, k: int)
    requires
        0 <= k <= completed.len(),
    ensures
        0 <= first_quit_before(completed, k) <= k,
        drain_result(completed, k).0 =~= completed.subrange(0, first_quit_before(completed, k)),
        drain_result(completed, k).1 == (first_quit_before(completed, k) < k),
        forall|i: int|
            0 <= i < first_quit_before(completed, k) ==> !((#[trigger] completed[i]) is Quit),
    decreases k,
{
    if k > 0 {
        lemma_drain_result_characterized(completed, k - 1);
        let fq = first_quit_before(completed, k - 1);
        if fq == k - 1 && !(completed[k - 1] is Quit) {
            assert(completed.subrange(0, k) =~= completed.subrange(0, k - 1).push(
                completed[k - 1],
            ));
        }
    }
}

/// At most one callback per token: when no two completed loads carry the
/// same token (tokens are issued uniquely), no two of the loads the drain
/// delivers do either, so the game's loaded callback fires at most once
/// for any token.
pub proof fn lemma_at_most_one_callback_per_token(completed: Seq<FinishedJob>, i: int, j: int)
    requires
        forall|a: int, b: int|
            0 <= a < b < completed.len() && (#[trigger] completed[a]) is TextureLoaded && (
            #[trigger] completed[b]) is TextureLoaded ==> completed[a]->TextureLoaded_token
                != completed[b]->TextureLoaded_token,
        0 <= i < j < drain_result(completed, completed.len() as int).0.len(),
    ensures
        drain_result(completed, completed.len() as int).0[i]->TextureLoaded_token
            != drain_result(completed, completed.len() as int).0[j]->TextureLoaded_token,
{
    let n = completed.len() as int;
    lemma_drain_result_characterized(completed, n);
    let loads = drain_result(completed, n).0;
    assert(loads[i] == completed[i]);
    assert(loads[j] == completed[j]);
    assert(completed[i] is TextureLoaded && completed[j] is TextureLoaded) by {
        assert(drain_result(completed, n).0 == loads);
        lemma_drain_loads_are_loads(completed, n, i);
        lemma_drain_loads_are_loads(completed, n, j);
    }
}

/// Every job the drain delivers is a load.
proof fn lemma_drain_loads_are_loads(completed: Seq<FinishedJob>, k: int, i: int)
    requires
        0 <= i < drain_result(completed, k).0.len(),
        0 <= k,
    ensures
        drain_result(completed, k).0[i] is TextureLoaded,
    decreases k,
{
    if k > 0 {
        let prev = drain_result(completed, k - 1);
        if !prev.1 && completed[k - 1] is TextureLoaded && i == prev.0.len() {
        } else {
            lemma_drain_loads_are_loads(completed, k - 1, i);
        }
    }
}

/// Once a quit was observed, scanning further changes nothing.
proof fn lemma_drain_result_stable(completed: Seq<FinishedJob>, k: int, m: int)
    requires
        0 <= k <= m,
        drain_result(completed, k).1,
    ensures
        drain_result(completed, m) == drain_result(completed, k),
    decreases m - k,
{
    if m > k {
        lemma_drain_result_stable(completed, k, m - 1);
    }
}

/// What one frame tick produced: the callbacks fired for drained loads (in
/// drain order, each with its fresh table index), the number of logic
/// updates run, the draw stream of the frame (in push order and as the
/// sorted, grouped plan) if at least one update ran, and whether the
/// terminal quit was drained.
pub struct FrameOutput {
    pub loaded: Vec<(JobToken, Texture)>,
    pub updates: u32,
    pub drawn: Vec<crate::renderer::DrawInstance>,
    pub plan: Option<DrawPlan>,
    pub exiting: bool,
}

/// The frame orchestrator: owns the context handed to game callbacks, the
/// fixed-timestep timer, the texture dimension table and the loop state.
pub struct GameRunner<P> {
    ctx: Ctx<P>,
    timer: Timer,
    texture_dims: Vec<(u32, u32)>,
    should_exit: bool,
}

impl<P: TextureProcessor> GameRunner<P> {
    pub closed spec fn spec_ctx(&self) -> Ctx<P> {
        self.ctx
    }

    pub closed spec fn spec_backlog(&self) -> u64 {
        self.timer.backlog()
    }

    pub closed spec fn spec_dims(&self) -> Seq<(u32, u32)> {
        self.texture_dims@
    }

    pub closed spec fn spec_exiting(&self) -> bool {
        self.should_exit
    }

    /// The context is well-formed, the timer's backlog is clamped, and the
    /// texture table starts with the built-in 1x1 white pixel at index 0.
    pub open spec fn wf(&self) -> bool {
        &&& self.spec_ctx().wf()
        &&& self.spec_backlog() <= MAX_BACKLOG_MICROS
        &&& self.spec_dims().len() >= 1
        &&& self.spec_dims()[0] == (1u32, 1u32)
    }

    /// A fresh runner: empty input, no job submitted, zero backlog, only
    /// the built-in white pixel texture, running.
    pub fn new(screen_w: u32, screen_h: u32) -> (runner: GameRunner<P>)
        ensures
            runner.wf(),
            !runner.spec_exiting(),
            runner.spec_backlog() == 0,
            runner.spec_dims() =~= seq![(1u32, 1u32)],
            runner.spec_ctx().spec_screen_size() == (screen_w, screen_h),
            runner.spec_ctx().spec_job_queue().spec_next_token() == 0,
            runner.spec_ctx().spec_job_queue().spec_pending() == Seq::<JobRequest<P>>::empty(),
            !runner.spec_ctx().spec_job_queue().spec_quit_requested(),
            forall|k: Key| !runner.spec_ctx().spec_input().spec_pressed(k),
    {
        let mut texture_dims: Vec<(u32, u32)> = Vec::new();
        texture_dims.push((1, 1));
        GameRunner {
            ctx: Ctx {
                job_queue: JobQueue::new(),
                input: Input::new(),
                screen_size: (screen_w, screen_h),
            },
            timer: Timer::new(),
            texture_dims,
            should_exit: false,
        }
    }

    /// Whether the terminal quit result has been drained; the loop must
    /// stop handing work in once it has.
    pub fn is_exiting(&self) -> (exiting: bool)
        ensures
            exiting == self.spec_exiting(),
    {
        self.should_exit
    }

    /// The texture dimension table: index 0 is the built-in white pixel,
    /// every drained load appended its extent.
    pub fn texture_dims(&self) -> (dims: &Vec<(u32, u32)>)
        ensures
            dims@ == self.spec_dims(),
    {
        &self.texture_dims
    }

    /// Read-only access to the context between callbacks.
    pub fn ctx(&self) -> (ctx: &Ctx<P>)
        ensures
            *ctx == self.spec_ctx(),
    {
        &self.ctx
    }

    /// Hand the oldest request not yet forwarded to the worker thread, in
    /// submission order.
    pub fn take_request(&mut self) -> (front: Option<JobRequest<P>>)
        requires
            old(self).wf(),
        ensures
            final(self).wf(),
            final(self).spec_exiting() == old(self).spec_exiting(),
            final(self).spec_dims() == old(self).spec_dims(),
            old(self).spec_ctx().spec_job_queue().spec_pending().len() == 0 ==> front is None
                && final(self).spec_ctx() == old(self).spec_ctx(),
            old(self).spec_ctx().spec_job_queue().spec_pending().len() > 0 ==> front == Some(
                old(self).spec_ctx().spec_job_queue().spec_pending()[0],
            ) && final(self).spec_ctx().spec_job_queue().spec_pending() == old(self).spec_ctx().spec_job_queue().spec_pending().drop_first(),
    {
        self.ctx.job_queue.take_next()
    }

    /// Run the game's start callback once, before the loop.
    pub fn start<G: Game<P>>(&mut self, game: &mut G)
        requires
            old(self).wf(),
        ensures
            final(self).wf(),
            final(self).spec_exiting() == old(self).spec_exiting(),
            final(self).spec_dims() == old(self).spec_dims(),
    {
        game.on_start(&mut self.ctx);
    }

    /// React to one window or input signal. A close request or the escape
    /// key asks the loop to exit; every other signal updates the input
    /// state exactly as the event describes. Once the terminal quit was
    /// drained, every signal answers `Exit` and changes nothing.
    pub fn handle_signal(&mut self, signal: WindowSignal) -> (action: SignalAction)
        requires
            old(self).wf(),
        ensures
            final(self).wf(),
            final(self).spec_exiting() == old(self).spec_exiting(),
            final(self).spec_dims() == old(self).spec_dims(),
            final(self).spec_ctx().spec_job_queue() == old(self).spec_ctx().spec_job_queue(),
            final(self).spec_ctx().spec_screen_size() == old(self).spec_ctx().spec_screen_size(),
            old(self).spec_exiting() ==> action == SignalAction::Exit && final(self).spec_ctx().spec_input() == old(self).spec_ctx().spec_input(),
            !old(self).spec_exiting() ==> {
                let pre = old(self).spec_ctx().spec_input();
                let post = final(self).spec_ctx().spec_input();
                match signal {
                    WindowSignal::CloseRequested => action == SignalAction::Exit && post == pre,
                    WindowSignal::KeyPressed(key) => if key == Key::Escape {
                        action == SignalAction::Exit && post == pre
                    } else {
                        action == SignalAction::Proceed && press_effect(&pre, &post, key)
                    },
                    WindowSignal::KeyReleased(key) => action == SignalAction::Proceed
                        && release_effect(&pre, &post, key),
                    WindowSignal::MouseLeft(pressed) => action == SignalAction::Proceed
                        && post.spec_mouse_left() == pressed && post.spec_mouse_right()
                        == pre.spec_mouse_right() && post.spec_mouse_pos()
                        == pre.spec_mouse_pos() && post.spec_scroll() == pre.spec_scroll()
                        && Input::keys_eq(&post, &pre),
                    WindowSignal::MouseRight(pressed) => action == SignalAction::Proceed
                        && post.spec_mouse_right() == pressed && post.spec_mouse_left()
                        == pre.spec_mouse_left() && post.spec_mouse_pos()
                        == pre.spec_mouse_pos() && post.spec_scroll() == pre.spec_scroll()
                        && Input::keys_eq(&post, &pre),
                    WindowSignal::ScrollUp => action == SignalAction::Proceed && scroll_effect(
                        &pre,
                        &post,
                        1i64,
                    ),
                    WindowSignal::ScrollDown => action == SignalAction::Proceed
                        && scroll_effect(&pre, &post, -1i64),
                    WindowSignal::CursorMoved(x, y) => action == SignalAction::Proceed
                        && post.spec_mouse_pos() == Some((x, y)) && post.spec_mouse_left()
                        == pre.spec_mouse_left() && post.spec_mouse_right()
                        == pre.spec_mouse_right() && post.spec_scroll() == pre.spec_scroll()
                        && Input::keys_eq(&post, &pre),
                    WindowSignal::CursorLeft => action == SignalAction::Proceed
                        && post.spec_mouse_pos() is None && post.spec_mouse_left()
                        == pre.spec_mouse_left() && post.spec_mouse_right()
                        == pre.spec_mouse_right() && post.spec_scroll() == pre.spec_scroll()
                        && Input::keys_eq(&post, &pre),
                    WindowSignal::FocusLost => action == SignalAction::Proceed && clear_effect(
                        &pre,
                        &post,
                    ),
                }
            },
    {
        if self.should_exit {
            return SignalAction::Exit;
        }
        match signal {
            WindowSignal::CloseRequested => SignalAction::Exit,
            WindowSignal::KeyPressed(key) => {
                if key == Key::Escape {
                    SignalAction::Exit
                } else {
                    self.ctx.input.press_key(key);
                    SignalAction::Proceed
                }
            },
            WindowSignal::KeyReleased(key) => {
                self.ctx.input.release_key(key);
                SignalAction::Proceed
            },
            WindowSignal::MouseLeft(pressed) => {
                self.ctx.input.set_mouse_left_press(pressed);
                SignalAction::Proceed
            },
            WindowSignal::MouseRight(pressed) => {
                self.ctx.input.set_mouse_right_press(pressed);
                SignalAction::Proceed
            },
            WindowSignal::ScrollUp => {
                self.ctx.input.add_mouse_scroll(1);
                SignalAction::Proceed
            },
            WindowSignal::ScrollDown => {
                self.ctx.input.add_mouse_scroll(-1);
                SignalAction::Proceed
            },
            WindowSignal::CursorMoved(x, y) => {
                self.ctx.input.set_mouse_pos(Some((x, y)));
                SignalAction::Proceed
            },
            WindowSignal::CursorLeft => {
                self.ctx.input.set_mouse_pos(None);
                SignalAction::Proceed
            },
            WindowSignal::FocusLost => {
                self.ctx.input.release_all();
                SignalAction::Proceed
            },
        }
    }

    /// One frame tick. Drain the available job results in FIFO order (each
    /// load appends its extent to the texture table and fires the game's
    /// callback exactly once, with a texture index equal to the table's
    /// prior length; a quit result marks the runner exiting and ends the
    /// drain); add the elapsed time to the timer's clamped backlog; run one
    /// logic update per full frame period in the backlog — at most 30; and
    /// if at least one update ran and the surface has a drawable size, let
    /// the game fill a fresh renderer and hand back its sorted and grouped
    /// draw plan.
    pub fn frame<G: Game<P>>(
        &mut self,
        game: &mut G,
        elapsed_micros: u64,
        completed: Vec<FinishedJob>,
        screen_w: u32,
        screen_h: u32,
    ) -> (out: FrameOutput)
        requires
            old(self).wf(),
            !old(self).spec_exiting(),
        ensures
            final(self).wf(),
            ({
                let drained = drain_result(completed@, completed@.len() as int);
                let loads = drained.0;
                let old_len = old(self).spec_dims().len() as int;
                &&& out.exiting == drained.1
                &&& final(self).spec_exiting() == drained.1
                &&& final(self).spec_dims().len() == old_len + loads.len()
                &&& forall|i: int|
                    0 <= i < old_len ==> final(self).spec_dims()[i] == old(self).spec_dims()[i]
                &&& forall|i: int|
                    0 <= i < loads.len() ==> final(self).spec_dims()[old_len + i] == (
                    (#[trigger] loads[i])->TextureLoaded_width,
                    loads[i]->TextureLoaded_height,
                )
                &&& out.loaded@.len() == loads.len()
                &&& forall|i: int|
                    0 <= i < loads.len() ==> #[trigger] out.loaded@[i] == (
                        (#[trigger] loads[i])->TextureLoaded_token,
                        (Texture { index: (old_len + i) as usize }),
                    )
            }),
            ({
                let capped = if old(self).spec_backlog() + elapsed_micros
                    > MAX_BACKLOG_MICROS {
                    MAX_BACKLOG_MICROS as int
                } else {
                    old(self).spec_backlog() + elapsed_micros
                };
                &&& out.updates == capped / (FRAME_PERIOD_MICROS as int)
                &&& final(self).spec_backlog() == capped % (FRAME_PERIOD_MICROS as int)
                &&& out.updates <= MAX_BACKLOG_MICROS / FRAME_PERIOD_MICROS
            }),
            final(self).spec_ctx().spec_screen_size() == (screen_w, screen_h),
            out.plan is Some <==> (out.updates > 0 && 0 < screen_w <= i32::MAX && 0 < screen_h
                <= i32::MAX),
            out.plan is None ==> out.drawn@ == Seq::<crate::renderer::DrawInstance>::empty(),
            out.plan matches Some(plan) ==> {
                &&& insts_wf(out.drawn@)
                &&& plan.instances@.len() == out.drawn@.len()
                &&& sorted_by_texture(plan.instances@)
                &&& insts_wf(plan.instances@)
                &&& forall|k: int|
                    #[trigger] tex_filter(plan.instances@, k) == tex_filter(out.drawn@, k)
                &&& runs_partition(plan.instances@, plan.runs@)
                &&& insts_in_table(plan.instances@, final(self).spec_dims().len() as int)
                &&& forall|r: int|
                    0 <= r < plan.runs@.len() ==> (#[trigger] plan.runs@[r]).texture.index
                        < final(self).spec_dims().len()
            },
    {
        // Drain available results, stopping at the terminal quit.
        let mut loaded: Vec<(JobToken, Texture)> = Vec::new();
        let n = completed.len();
        let ghost old_len = self.texture_dims@.len() as int;
        let mut k: usize = 0;
        while k < n && !self.should_exit
            invariant
                n == completed@.len(),
                k <= n,
                self.wf(),
                old(self).wf(),
                old_len == old(self).spec_dims().len() as int,
                ({
                    let drained = drain_result(completed@, k as int);
                    &&& self.should_exit == drained.1
                    &&& self.texture_dims@.len() == old_len + drained.0.len()
                    &&& forall|i: int|
                        0 <= i < old_len ==> self.texture_dims@[i] == old(self).spec_dims()[i]
                    &&& forall|i: int|
                        0 <= i < drained.0.len() ==> self.texture_dims@[old_len + i] == (
                        (#[trigger] drained.0[i])->TextureLoaded_width,
                        drained.0[i]->TextureLoaded_height,
                    )
                    &&& loaded@.len() == drained.0.len()
                    &&& forall|i: int|
                        0 <= i < drained.0.len() ==> #[trigger] loaded@[i] == (
                            (#[trigger] drained.0[i])->TextureLoaded_token,
                            (Texture { index: (old_len + i) as usize }),
                        )
                }),
                self.timer == old(self).timer,
                self.ctx.spec_screen_size() == old(self).spec_ctx().spec_screen_size(),
            decreases n - k,
        {
            let job = &completed[k];
            match job {
                FinishedJob::TextureLoaded { token, width, height } => {
                    let index = self.texture_dims.len();
                    self.texture_dims.push((*width, *height));
                    game.on_texture_loaded(&mut self.ctx, *token, Texture { index });
                    loaded.push((*token, Texture { index }));
                },
                FinishedJob::Quit => {
                    self.should_exit = true;
                },
            }
            k += 1;
        }
        proof {
            if k < n {
                lemma_drain_result_stable(completed@, k as int, n as int);
            }
        }

        // Tick the timer and run the backlogged logic updates.
        self.timer.tick(elapsed_micros);
        let ghost capped = self.timer.backlog() as int;
        let ghost exit_snap = self.should_exit;
        let ghost dims_snap = self.texture_dims@;
        let mut updates: u32 = 0;
        loop
            invariant
                self.wf(),
                updates * FRAME_PERIOD_MICROS + self.timer.backlog() == capped,
                0 <= capped <= MAX_BACKLOG_MICROS,
                self.should_exit == exit_snap,
                self.texture_dims@ == dims_snap,
                self.ctx.spec_screen_size() == old(self).spec_ctx().spec_screen_size(),
            ensures
                self.wf(),
                updates * FRAME_PERIOD_MICROS + self.timer.backlog() == capped,
                self.timer.backlog() < FRAME_PERIOD_MICROS,
                self.should_exit == exit_snap,
                self.texture_dims@ == dims_snap,
                self.ctx.spec_screen_size() == old(self).spec_ctx().spec_screen_size(),
            decreases self.timer.backlog(),
        {
            let run = self.timer.should_update();
            if !run {
                break ;
            }
            game.update(&mut self.ctx);
            updates = updates + 1;
        }
        proof {
            assert(updates == capped / (FRAME_PERIOD_MICROS as int));
            assert(self.timer.backlog() == capped % (FRAME_PERIOD_MICROS as int));
        }

        // Capture the surface size for the context.
        self.ctx.screen_size = (screen_w, screen_h);

        // If any update ran, let the game draw and build the plan.
        if updates > 0 && screen_w > 0 && screen_w <= i32::MAX as u32 && screen_h > 0
            && screen_h <= i32::MAX as u32 {
            let dims = clone_dims(&self.texture_dims);
            let mut renderer = Renderer::new(screen_w, screen_h, dims);
            game.draw(&mut self.ctx, &mut renderer);
            let plan = renderer.draw_plan();
            let drawn = renderer.into_instances();
            FrameOutput {
                loaded,
                updates,
                drawn,
                plan: Some(plan),
                exiting: self.should_exit,
            }
        } else {
            FrameOutput {
                loaded,
                updates,
                drawn: Vec::new(),
                plan: None,
                exiting: self.should_exit,
            }
        }
    }
}

/// Copy the dimension table for a frame's renderer.
fn clone_dims(dims: &Vec<(u32, u32)>) -> (out: Vec<(u32, u32)>)
    ensures
        out@ == dims@,
{
    let mut out: Vec<(u32, u32)> = Vec::new();
    let n = dims.len();
    let mut i: usize = 0;
    while i < n
        invariant
            n == dims@.len(),
            i <= n,
            out@ == dims@.subrange(0, i as int),
        decreases n - i,
    {
        out.push(dims[i]);
        i += 1;
        proof {
            assert(dims@.subrange(0, i as int) =~= dims@.subrange(0, i - 1).push(
                dims@[i - 1],
            ));
        }
    }
    proof {
        assert(dims@.subrange(0, n as int) =~= dims@);
    }
    out
}

} // verus!
