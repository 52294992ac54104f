use sidescroll::background::Background;
use sidescroll::frame::{cmd_tag_of, DrawCmd};
use sidescroll::game_loop::{
    next_deadline, FramePlan, GameLoop, GameplayCheck, InputEvent, TickPlan, FLAP_KEY,
    TICK_PERIOD_US,
};
use sidescroll::layer::Layer;
use sidescroll::units::{MAX_DELTA_US, SCALE};

fn demo_layers() -> Vec<Layer> {
    vec![
        Layer::Scrolling(Background::new(0, 1_400_000_000, 50, 2 * SCALE)),
        Layer::External { tag: 1 },
        Layer::Scrolling(Background::new(2, 1_400_000_000, 200, 500_000_000)),
        Layer::External { tag: 3 },
        Layer::External { tag: 4 },
    ]
}

fn expect_present(plan: TickPlan) -> FramePlan {
    match plan {
        TickPlan::Present(fp) => fp,
        TickPlan::Exit => panic!("expected a presented frame"),
    }
}

fn tags_of(fp: &FramePlan) -> Vec<u64> {
    fp.frame.cmds.iter().map(|c| cmd_tag_of(c)).collect()
}

#[test]
fn measured_delta_reaches_every_layer() {
    let mut game = GameLoop::new(demo_layers(), 1_000);
    let fp = expect_present(game.tick(&vec![], 21_000));
    assert_eq!(fp.delta_us, 20_000);
    // background scrolls by 20_000 us * 50 nano/us, base by 20_000 * 200
    match game.layers[0] {
        Layer::Scrolling(bg) => assert_eq!(bg.offset, -1_000_000),
        _ => panic!("layer 0 is the sky band"),
    }
    match game.layers[2] {
        Layer::Scrolling(bg) => assert_eq!(bg.offset, -4_000_000),
        _ => panic!("layer 2 is the ground band"),
    }
    assert_eq!(game.last_tick_us, 21_000);
}

#[test]
fn deadline_is_one_period_after_the_work() {
    // Anchored at the instant the tick's work ended, not at its start.
    assert_eq!(next_deadline(37_500), 37_500 + TICK_PERIOD_US);
}

#[test]
fn post_frame_checks_in_order() {
    let mut game = GameLoop::new(demo_layers(), 0);
    let fp = expect_present(game.tick(&vec![], 20_000));
    assert_eq!(
        fp.checks,
        vec![GameplayCheck::Collision, GameplayCheck::Score]
    );
}

#[test]
fn draw_order_is_insertion_order_every_tick() {
    let mut game = GameLoop::new(demo_layers(), 0);
    let first = expect_present(game.tick(&vec![], 20_000));
    let second = expect_present(game.tick(&vec![], 40_000));
    // 3 sky tiles, bird, 3 ground tiles, pipes, overlay — both ticks alike.
    let expected = vec![0, 0, 0, 1, 2, 2, 2, 3, 4];
    assert_eq!(tags_of(&first), expected);
    assert_eq!(tags_of(&second), expected);
}

#[test]
fn external_layers_draw_one_command() {
    let mut game = GameLoop::new(vec![Layer::External { tag: 9 }], 0);
    let fp = expect_present(game.tick(&vec![], 1_000));
    assert_eq!(fp.frame.cmds.len(), 1);
    assert_eq!(fp.frame.cmds[0], DrawCmd::External { tag: 9 });
}

#[test]
fn flap_key_raises_the_impulse() {
    let mut game = GameLoop::new(demo_layers(), 0);
    let fp = expect_present(game.tick(&vec![InputEvent::KeyDown(FLAP_KEY)], 1_000));
    assert!(fp.impulse);
}

#[test]
fn other_keys_are_ignored() {
    let mut game = GameLoop::new(demo_layers(), 0);
    let fp = expect_present(game.tick(&vec![InputEvent::KeyDown(FLAP_KEY + 1)], 1_000));
    assert!(!fp.impulse);
}

#[test]
fn scenario_c_collision_freezes_time_next_tick() {
    let mut game = GameLoop::new(demo_layers(), 0);
    let fp = expect_present(game.tick(&vec![], 20_000));
    assert_eq!(fp.delta_us, 20_000);
    // The backend presents, then reports the tick-N collision verdict.
    game.report_collision(true);
    assert!(game.game_ended());
    // From tick N+1 on, every layer perceives a zero delta.
    let frozen = expect_present(game.tick(&vec![], 40_000));
    assert_eq!(frozen.delta_us, 0);
    let still_frozen = expect_present(game.tick(&vec![], 60_000));
    assert_eq!(still_frozen.delta_us, 0);
    // Layers stopped moving but are still drawn.
    match game.layers[0] {
        Layer::Scrolling(bg) => assert_eq!(bg.offset, -1_000_000),
        _ => panic!("layer 0 is the sky band"),
    }
    assert_eq!(frozen.frame.cmds.len(), 9);
}

#[test]
fn no_collision_keeps_time_running() {
    let mut game = GameLoop::new(demo_layers(), 0);
    game.report_collision(false);
    assert!(!game.game_ended());
    let fp = expect_present(game.tick(&vec![], 20_000));
    assert_eq!(fp.delta_us, 20_000);
}

#[test]
fn scenario_d_close_request_skips_the_frame() {
    let mut game = GameLoop::new(demo_layers(), 0);
    let before_offset = match game.layers[0] {
        Layer::Scrolling(bg) => bg.offset,
        _ => panic!("layer 0 is the sky band"),
    };
    let plan = game.tick(
        &vec![InputEvent::KeyDown(FLAP_KEY), InputEvent::CloseRequested],
        20_000,
    );
    assert!(matches!(plan, TickPlan::Exit));
    // Nothing was drawn or advanced: the loop state is untouched.
    assert_eq!(game.last_tick_us, 0);
    match game.layers[0] {
        Layer::Scrolling(bg) => assert_eq!(bg.offset, before_offset),
        _ => panic!("layer 0 is the sky band"),
    }
}

#[test]
fn backwards_clock_yields_zero_delta() {
    let mut game = GameLoop::new(demo_layers(), 50_000);
    let fp = expect_present(game.tick(&vec![], 10_000));
    assert_eq!(fp.delta_us, 0);
    assert_eq!(game.last_tick_us, 10_000);
}

#[test]
fn absurd_delta_is_clamped() {
    let mut game = GameLoop::new(demo_layers(), 0);
    let fp = expect_present(game.tick(&vec![], u64::MAX - TICK_PERIOD_US));
    assert_eq!(fp.delta_us, MAX_DELTA_US);
}
