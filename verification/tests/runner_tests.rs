use sprite_engine::{Ctx, Game, GameRunner, Key, MakeTransparent, Rect, Texture};
use sprite_engine::queue::{FinishedJob, JobRequest};
use sprite_engine::runner::{render_outcome, RenderAction, RenderStatus, SignalAction, WindowSignal};
use sprite_engine::texture::prepare_from_rgba;

struct TestGame {
    submit_on_start: u32,
    quit_on_start: bool,
    loaded: Vec<(u64, usize)>,
    texture: Option<Texture>,
    updates_seen: u32,
}

impl TestGame {
    fn new() -> TestGame {
        TestGame {
            submit_on_start: 1,
            quit_on_start: false,
            loaded: Vec::new(),
            texture: None,
            updates_seen: 0,
        }
    }
}

impl Game<MakeTransparent> for TestGame {
    fn on_start(&mut self, ctx: &mut Ctx<MakeTransparent>) {
        for _ in 0..self.submit_on_start {
            ctx.job_queue().load_texture_from_rgba(vec![1, 2, 3, 255], 1, 1, Vec::new());
        }
        if self.quit_on_start {
            ctx.job_queue().quit();
        }
    }

    fn on_texture_loaded(&mut self, _ctx: &mut Ctx<MakeTransparent>, job: sprite_engine::JobToken, texture: Texture) {
        self.loaded.push((job.id(), texture.index));
        self.texture = Some(texture);
    }

    fn update(&mut self, _ctx: &mut Ctx<MakeTransparent>) {
        self.updates_seen += 1;
    }

    fn draw(&mut self, _ctx: &mut Ctx<MakeTransparent>, renderer: &mut sprite_engine::Renderer) {
        if let Some(texture) = self.texture {
            renderer.draw(texture, Rect { x: 5, y: 5, w: 10, h: 10 });
        }
    }
}

/// Play the worker thread: run the CPU half of one load request and report
/// the finished job it would send back.
fn run_worker(request: JobRequest<MakeTransparent>) -> FinishedJob {
    match request {
        JobRequest::LoadTextureFromRgba { token, rgba, width, height, processors } => {
            let img = prepare_from_rgba(rgba, width, height, &processors);
            FinishedJob::TextureLoaded { token, width: img.width, height: img.height }
        }
        JobRequest::LoadTextureFromFile { .. } => panic!("no file request expected here"),
        JobRequest::Quit => FinishedJob::Quit,
    }
}

#[test]
fn submitted_job_is_drained_and_drawn_end_to_end() {
    let mut runner: GameRunner<MakeTransparent> = GameRunner::new(100, 100);
    let mut game = TestGame::new();
    runner.start(&mut game);

    // The worker picks the request up and completes it.
    let request = runner.take_request().expect("the start callback submitted a job");
    assert!(runner.take_request().is_none());
    let finished = run_worker(request);

    // A later frame drains the result before running any update.
    let out = runner.frame(&mut game, 16_666, vec![finished], 100, 100);
    // The callback fired exactly once, with the table's prior length (the
    // built-in white pixel occupies index 0) as the new index.
    assert_eq!(game.loaded, vec![(0, 1)]);
    assert_eq!(out.loaded.len(), 1);
    assert_eq!(out.loaded[0].1.index, 1);
    assert_eq!(runner.texture_dims().as_slice(), &[(1, 1), (1, 1)]);
    // One update ran and the draw used the new texture index.
    assert_eq!(out.updates, 1);
    assert_eq!(game.updates_seen, 1);
    assert_eq!(out.drawn.len(), 1);
    assert_eq!(out.drawn[0].tex.index, 1);
    let plan = out.plan.expect("an update ran, so a plan was built");
    assert_eq!(plan.instances.len(), 1);
    assert_eq!(plan.runs.len(), 1);
    assert_eq!(plan.runs[0].texture.index, 1);
    assert!(!out.exiting);
}

#[test]
fn results_are_drained_in_completion_order() {
    let mut runner: GameRunner<MakeTransparent> = GameRunner::new(64, 64);
    let mut game = TestGame::new();
    game.submit_on_start = 3;
    runner.start(&mut game);
    let mut finished = Vec::new();
    while let Some(request) = runner.take_request() {
        finished.push(run_worker(request));
    }
    let out = runner.frame(&mut game, 0, finished, 64, 64);
    let tokens: Vec<u64> = out.loaded.iter().map(|(token, _)| token.id()).collect();
    let indices: Vec<usize> = out.loaded.iter().map(|(_, texture)| texture.index).collect();
    assert_eq!(tokens, vec![0, 1, 2]);
    assert_eq!(indices, vec![1, 2, 3]);
    assert_eq!(out.updates, 0);
    assert!(out.plan.is_none());
}

#[test]
fn quit_result_marks_the_runner_exiting() {
    let mut runner: GameRunner<MakeTransparent> = GameRunner::new(64, 64);
    let mut game = TestGame::new();
    game.quit_on_start = true;
    runner.start(&mut game);
    let load = runner.take_request().unwrap();
    let quit = runner.take_request().unwrap();
    let out = runner.frame(&mut game, 16_666, vec![run_worker(load), run_worker(quit)], 64, 64);
    assert!(out.exiting);
    assert!(runner.is_exiting());
    // The load completed before the quit was still delivered.
    assert_eq!(out.loaded.len(), 1);
    // Once exiting, every signal asks the loop to exit.
    assert_eq!(runner.handle_signal(WindowSignal::KeyPressed(Key::A)), SignalAction::Exit);
}

#[test]
fn escape_and_close_request_exit_the_loop() {
    let mut runner: GameRunner<MakeTransparent> = GameRunner::new(64, 64);
    assert_eq!(runner.handle_signal(WindowSignal::CloseRequested), SignalAction::Exit);
    assert_eq!(runner.handle_signal(WindowSignal::KeyPressed(Key::Escape)), SignalAction::Exit);
    // Escape is not recorded as a pressed key.
    assert!(!runner.ctx().input().is_pressed(Key::Escape));
}

#[test]
fn signals_update_the_input_state() {
    let mut runner: GameRunner<MakeTransparent> = GameRunner::new(64, 64);
    assert_eq!(runner.handle_signal(WindowSignal::KeyPressed(Key::W)), SignalAction::Proceed);
    assert!(runner.ctx().input().is_pressed(Key::W));
    runner.handle_signal(WindowSignal::MouseLeft(true));
    runner.handle_signal(WindowSignal::CursorMoved(7, 9));
    runner.handle_signal(WindowSignal::ScrollUp);
    runner.handle_signal(WindowSignal::ScrollUp);
    runner.handle_signal(WindowSignal::ScrollDown);
    {
        let input = runner.ctx().input();
        assert!(input.is_mouse_left_pressed());
        assert_eq!(input.mouse_pos(), Some((7, 9)));
        assert_eq!(input.scroll_pos(), 1);
    }
    runner.handle_signal(WindowSignal::FocusLost);
    let input = runner.ctx().input();
    assert!(!input.is_pressed(Key::W));
    assert!(!input.is_mouse_left_pressed());
    assert_eq!(input.mouse_pos(), None);
}

#[test]
fn a_stalled_frame_runs_at_most_thirty_updates() {
    let mut runner: GameRunner<MakeTransparent> = GameRunner::new(64, 64);
    let mut game = TestGame::new();
    let out = runner.frame(&mut game, 10_000_000, Vec::new(), 64, 64);
    assert_eq!(out.updates, 30);
    assert_eq!(game.updates_seen, 30);
}

#[test]
fn render_outcomes_follow_the_recovery_table() {
    assert_eq!(render_outcome(RenderStatus::Presented), RenderAction::Proceed);
    assert_eq!(render_outcome(RenderStatus::SurfaceLost), RenderAction::RecreateSurface);
    assert_eq!(render_outcome(RenderStatus::OutOfMemory), RenderAction::Exit);
    assert_eq!(render_outcome(RenderStatus::OtherError), RenderAction::Proceed);
}

#[test]
fn zero_sized_surface_skips_the_draw_pass() {
    let mut runner: GameRunner<MakeTransparent> = GameRunner::new(64, 64);
    let mut game = TestGame::new();
    let out = runner.frame(&mut game, 16_666, Vec::new(), 0, 0);
    assert_eq!(out.updates, 1);
    assert!(out.plan.is_none());
    assert!(out.drawn.is_empty());
}
