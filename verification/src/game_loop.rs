//! The fixed-cadence orchestrator. Once per tick it classifies the drained
//! input events, measures elapsed time (frozen to zero once the game has
//! ended), and threads one fresh frame through every layer in insertion
//! order (draw, then update, per layer). The backend executes the returned
//! plan: it forwards the impulse, replays the frame's commands onto the
//! real surface, presents, makes the plan's gameplay queries in order (the
//! collision verdict comes back via `report_collision`, the scorer is
//! queried for its side effect), and finally schedules the next wake-up via
//! `next_deadline`, one period after the instant its work ended.

use vstd::prelude::*;

use crate::drawable::Drawable;
use crate::frame::{cmd_tag, DrawCmd, Frame};
use crate::layer::{lemma_cmds_tagged, Layer};
use crate::units::MAX_DELTA_US;

verus! {

/// The fixed wake-up period of the loop, in microseconds.
pub const TICK_PERIOD_US: u64 = 20_000;

/// The key code the loop treats as the jump/flap impulse.
pub const FLAP_KEY: u32 = 32;

/// Red channel of the fixed clear color (a loud default under the layers).
pub const CLEAR_R: u8 = 255;

/// Green channel of the fixed clear color.
pub const CLEAR_G: u8 = 0;

/// Blue channel of the fixed clear color.
pub const CLEAR_B: u8 = 0;

/// Alpha channel of the fixed clear color.
pub const CLEAR_A: u8 = 255;

/// One drained input event, already decoded by the input backend;
/// anything it could not decode is simply not handed in.
#[derive(Clone, Copy, PartialEq, Eq, Structural, Debug)]
pub enum InputEvent {
    /// The window was asked to close.
    CloseRequested,
    /// A key went down.
    KeyDown(u32),
}

/// Whether some drained event asks the process to terminate.
pub open spec fn spec_has_close(events: Seq<InputEvent>) -> bool {
    exists|i: int| 0 <= i < events.len() && (#[trigger] events[i]) is CloseRequested
}

/// Whether some drained event is the flap impulse.
pub open spec fn spec_has_flap(events: Seq<InputEvent>) -> bool {
    exists|i: int| 0 <= i < events.len() && #[trigger] events[i] == InputEvent::KeyDown(FLAP_KEY)
}

/// The time delta fed to every layer this tick: the measured wall-clock
/// delta (never negative, clamped at the representable maximum), except that
/// it is exactly zero while the game-over signal is active.
pub open spec fn spec_delta(ended: bool, last_us: u64, now_us: u64) -> u64 {
    if ended {
        0
    } else if now_us < last_us {
        0
    } else if now_us - last_us > MAX_DELTA_US {
        MAX_DELTA_US
    } else {
        (now_us - last_us) as u64
    }
}

/// Every layer advanced by the same delta, in place.
pub open spec fn step_all(layers: Seq<Layer>, delta_us: int) -> Seq<Layer> {
    layers.map_values(|l: Layer| l.stepped(delta_us))
}

/// The full frame one tick composes: each layer's commands, concatenated in
/// insertion order.
pub open spec fn all_cmds(layers: Seq<Layer>) -> Seq<DrawCmd>
    decreases layers.len(),
{
    if layers.len() == 0 {
        Seq::empty()
    } else {
        all_cmds(layers.drop_last()) + layers.last().cmds()
    }
}

/// One post-frame gameplay query the backend must make, in order, after
/// presenting the frame.
#[derive(Clone, Copy, PartialEq, Eq, Structural, Debug)]
pub enum GameplayCheck {
    /// Ask the obstacle system whether the moving entity collided, and hand
    /// the verdict to `report_collision`.
    Collision,
    /// Ask the scoring collaborator to update score state from the moving
    /// entity's position (a side effect of the collaborator's own).
    Score,
}

/// Everything the backend must do for one presented tick.
pub struct FramePlan {
    /// Forward the flap impulse to the moving-entity collaborator first.
    pub impulse: bool,
    /// The delta every external layer's own update must be advanced by.
    pub delta_us: u64,
    /// The composed frame: replay its commands in order, then present.
    pub frame: Frame,
    /// After presenting, make these gameplay queries, in this order.
    pub checks: Vec<GameplayCheck>,
}

/// What one tick decided.
pub enum TickPlan {
    /// A close request arrived: terminate; nothing was drawn or advanced.
    Exit,
    /// Present this frame and carry out its side effects.
    Present(FramePlan),
}

/// The loop's own state: the ordered layer collection, the instant of the
/// previous tick, and the mirrored game-over signal.
pub struct GameLoop {
    pub layers: Vec<Layer>,
    pub last_tick_us: u64,
    pub ended: bool,
}

impl GameLoop {
    /// Every layer is internally well-formed.
    pub open spec fn wf(&self) -> bool {
        forall|j: int| 0 <= j < self.layers@.len() ==> (#[trigger] self.layers@[j]).inv()
    }

    /// Set up the loop over the given back-to-front layers; the first tick
    /// measures its delta from `start_us`.
    pub fn new(layers: Vec<Layer>, start_us: u64) -> (g: GameLoop)
        requires
            forall|j: int| 0 <= j < layers@.len() ==> (#[trigger] layers@[j]).inv(),
        ensures
            g.wf(),
            g.layers@ == layers@,
            g.last_tick_us == start_us,
            !g.ended,
    {
        GameLoop { layers, last_tick_us: start_us, ended: false }
    }

    /// Whether the game-over signal is active.
    pub fn game_ended(&self) -> (r: bool)
        ensures
            r == self.ended,
    {
        self.ended
    }

    /// The post-frame gameplay check: a detected collision switches the
    /// game-over signal on; nothing ever switches it back off.
    pub fn report_collision(&mut self, collided: bool)
        ensures
            final(self).ended == (old(self).ended || collided),
            final(self).layers@ == old(self).layers@,
            final(self).last_tick_us == old(self).last_tick_us,
    {
        if collided {
            self.ended = true;
        }
    }

    /// One tick. A close request exits at once, leaving the state untouched;
    /// otherwise every layer perceives one and the same delta (zero exactly
    /// when the game has ended), the frame is composed in insertion order,
    /// and the plan directs the post-frame gameplay queries: collision, then
    /// scoring.
    pub fn tick(&mut self, events: &Vec<InputEvent>, now_us: u64) -> (plan: TickPlan)
        requires
            old(self).wf(),
        ensures
            final(self).wf(),
            spec_has_close(events@) ==> plan is Exit && *final(self) == *old(self),
            !spec_has_close(events@) ==> (plan matches TickPlan::Present(fp) && {
                &&& fp.delta_us == spec_delta(old(self).ended, old(self).last_tick_us, now_us)
                &&& (old(self).ended ==> fp.delta_us == 0)
                &&& fp.impulse == spec_has_flap(events@)
                &&& fp.frame@ == all_cmds(old(self).layers@)
                &&& fp.checks@ == seq![GameplayCheck::Collision, GameplayCheck::Score]
                &&& final(self).layers@ == step_all(old(self).layers@, fp.delta_us as int)
                &&& final(self).last_tick_us == now_us
                &&& final(self).ended == old(self).ended
            }),
    {
        let mut saw_close = false;
        let mut saw_flap = false;
        let mut j: usize = 0;
        while j < events.len()
            invariant
                0 <= j <= events@.len(),
                saw_close == spec_has_close(events@.take(j as int)),
                saw_flap == spec_has_flap(events@.take(j as int)),
            decreases events@.len() - j,
        {
            proof {
                lemma_scan_close_extend(events@, j as int);
                lemma_scan_flap_extend(events@, j as int);
            }
            match events[j] {
                InputEvent::CloseRequested => {
                    saw_close = true;
                }
                InputEvent::KeyDown(key) => {
                    if key == FLAP_KEY {
                        saw_flap = true;
                    }
                }
            }
            j = j + 1;
        }
        proof {
            assert(events@.take(events@.len() as int) =~= events@);
        }
        if saw_close {
            return TickPlan::Exit;
        }

        let measured = if now_us >= self.last_tick_us {
            now_us - self.last_tick_us
        } else {
            0
        };
        let clamped = if measured > MAX_DELTA_US {
            MAX_DELTA_US
        } else {
            measured
        };
        let delta = if self.ended {
            0
        } else {
            clamped
        };
        self.last_tick_us = now_us;

        let ghost orig_layers = self.layers@;
        let mut frame = Frame::new();
        let n = self.layers.len();
        proof {
            assert(frame@ =~= all_cmds(orig_layers.take(0)));
        }
        let mut i: usize = 0;
        while i < n
            invariant
                n == self.layers@.len(),
                orig_layers.len() == n,
                0 <= i <= n,
                delta <= MAX_DELTA_US,
                self.last_tick_us == now_us,
                self.ended == old(self).ended,
                forall|k: int| i <= k < n ==> self.layers@[k] == orig_layers[k],
                forall|k: int| 0 <= k < i
                    ==> self.layers@[k] == (#[trigger] orig_layers[k]).stepped(delta as int),
                forall|k: int| 0 <= k < n ==> (#[trigger] orig_layers[k]).inv(),
                forall|k: int| 0 <= k < i ==> (#[trigger] self.layers@[k]).inv(),
                frame@ == all_cmds(orig_layers.take(i as int)),
            decreases n - i,
        {
            let mut lay = self.layers[i];
            proof {
                assert(lay == orig_layers[i as int]);
                assert(lay.inv());
            }
            frame = lay.draw(frame);
            lay.update(delta);
            self.layers.set(i, lay);
            proof {
                assert(orig_layers.take(i + 1 as int).drop_last() =~= orig_layers.take(i as int));
                assert(orig_layers.take(i + 1 as int).last() == orig_layers[i as int]);
                assert(frame@ =~= all_cmds(orig_layers.take(i + 1 as int)));
            }
            i = i + 1;
        }
        proof {
            assert(orig_layers.take(n as int) =~= orig_layers);
            assert(self.layers@ =~= step_all(orig_layers, delta as int));
        }

        let mut checks: Vec<GameplayCheck> = Vec::new();
        checks.push(GameplayCheck::Collision);
        checks.push(GameplayCheck::Score);
        proof {
            assert(checks@ =~= seq![GameplayCheck::Collision, GameplayCheck::Score]);
        }

        TickPlan::Present(FramePlan { impulse: saw_flap, delta_us: delta, frame, checks })
    }
}

/// The loop's final step: the next wake-up lies one fixed period after
/// `now_us`, the instant the tick's work ended — read after presentation
/// and the gameplay checks, however long they took. A tick that overruns
/// the period simply shows up in the next tick's measured delta.
pub fn next_deadline(now_us: u64) -> (t: u64)
    requires
        now_us + TICK_PERIOD_US <= u64::MAX,
    ensures
        t == now_us + TICK_PERIOD_US,
{
    now_us + TICK_PERIOD_US
}

/// Scanning one more event sees a close request exactly when the prefix did
/// or the new event is one.
proof fn lemma_scan_close_extend(events: Seq<InputEvent>, j: int)
    requires
        0 <= j < events.len(),
    ensures
        spec_has_close(events.take(j + 1))
            == (spec_has_close(events.take(j)) || events[j] is CloseRequested),
{
    let a = events.take(j);
    let b = events.take(j + 1);
    if spec_has_close(a) {
        let w = choose|i: int| 0 <= i < a.len() && a[i] is CloseRequested;
        assert(b[w] is CloseRequested);
    }
    if events[j] is CloseRequested {
        assert(b[j] is CloseRequested);
    }
    if spec_has_close(b) {
        let w = choose|i: int| 0 <= i < b.len() && b[i] is CloseRequested;
        if w < j {
            assert(a[w] is CloseRequested);
        }
    }
}

/// Scanning one more event sees a flap exactly when the prefix did or the
/// new event is one.
proof fn lemma_scan_flap_extend(events: Seq<InputEvent>, j: int)
    requires
        0 <= j < events.len(),
    ensures
        spec_has_flap(events.take(j + 1))
            == (spec_has_flap(events.take(j)) || events[j] == InputEvent::KeyDown(FLAP_KEY)),
{
    let a = events.take(j);
    let b = events.take(j + 1);
    if spec_has_flap(a) {
        let w = choose|i: int| 0 <= i < a.len() && a[i] == InputEvent::KeyDown(FLAP_KEY);
        assert(b[w] == InputEvent::KeyDown(FLAP_KEY));
    }
    if events[j] == InputEvent::KeyDown(FLAP_KEY) {
        assert(b[j] == InputEvent::KeyDown(FLAP_KEY));
    }
    if spec_has_flap(b) {
        let w = choose|i: int| 0 <= i < b.len() && b[i] == InputEvent::KeyDown(FLAP_KEY);
        if w < j {
            assert(a[w] == InputEvent::KeyDown(FLAP_KEY));
        }
    }
}

/// Advancing a layer in time changes neither its tag nor how many commands
/// it draws (the tile count depends only on the tile width).
proof fn lemma_stepped_layer_shape(l: Layer, delta_us: int)
    ensures
        l.stepped(delta_us).tag() == l.tag(),
        l.stepped(delta_us).cmds().len() == l.cmds().len(),
{
    match l {
        Layer::Scrolling(bg) => {
            assert(l.stepped(delta_us) == Layer::Scrolling(bg.spec_stepped(delta_us)));
        }
        Layer::External { .. } => {}
    }
}

/// LAW: the draw order is stable and deterministic. A tick replaces each
/// layer by its stepped state in place: the layer count, every layer's tag,
/// and every layer's command count are all unchanged, so each tick records
/// the same per-layer grouping of commands, in insertion order.
pub proof fn lemma_draw_order_stable(layers: Seq<Layer>, delta_us: int)
    ensures
        step_all(layers, delta_us).len() == layers.len(),
        forall|i: int| 0 <= i < layers.len()
            ==> (#[trigger] step_all(layers, delta_us)[i]).tag() == layers[i].tag(),
        forall|i: int| 0 <= i < layers.len()
            ==> (#[trigger] step_all(layers, delta_us)[i]).cmds().len() == layers[i].cmds().len(),
{
    assert forall|i: int| 0 <= i < layers.len()
        implies (#[trigger] step_all(layers, delta_us)[i]).tag() == layers[i].tag()
            && step_all(layers, delta_us)[i].cmds().len() == layers[i].cmds().len() by {
        lemma_stepped_layer_shape(layers[i], delta_us);
    }
}

/// LAW: the frame's command order is identical from tick to tick: mapping
/// every command of a composed frame to the tag of the layer that issued it
/// gives the very same sequence before and after any time step.
pub proof fn lemma_frame_tag_sequence_stable(layers: Seq<Layer>, delta_us: int)
    ensures
        all_cmds(step_all(layers, delta_us)).map_values(|c: DrawCmd| cmd_tag(c))
            == all_cmds(layers).map_values(|c: DrawCmd| cmd_tag(c)),
    decreases layers.len(),
{
    let f = |c: DrawCmd| cmd_tag(c);
    if layers.len() == 0 {
        assert(step_all(layers, delta_us) =~= Seq::<Layer>::empty());
        assert(all_cmds(step_all(layers, delta_us)).map_values(f)
            =~= all_cmds(layers).map_values(f));
    } else {
        let pre = layers.drop_last();
        let l = layers.last();
        let sl = l.stepped(delta_us);
        lemma_frame_tag_sequence_stable(pre, delta_us);
        lemma_stepped_layer_shape(l, delta_us);
        lemma_cmds_tagged(l);
        lemma_cmds_tagged(sl);
        assert(step_all(layers, delta_us).drop_last() =~= step_all(pre, delta_us));
        assert(all_cmds(step_all(layers, delta_us))
            == all_cmds(step_all(pre, delta_us)) + sl.cmds());
        assert(all_cmds(layers) == all_cmds(pre) + l.cmds());
        let plen = all_cmds(pre).map_values(f).len() as int;
        assert(all_cmds(step_all(pre, delta_us)).map_values(f).len() == plen);
        assert forall|k: int| 0 <= k < all_cmds(layers).len()
            implies all_cmds(step_all(layers, delta_us)).map_values(f)[k]
                == all_cmds(layers).map_values(f)[k] by {
            if k < plen {
                assert(all_cmds(step_all(pre, delta_us)).map_values(f)[k]
                    == all_cmds(pre).map_values(f)[k]);
            } else {
                assert(cmd_tag(sl.cmds()[k - plen]) == sl.tag());
                assert(cmd_tag(l.cmds()[k - plen]) == l.tag());
            }
        }
        assert(all_cmds(step_all(layers, delta_us)).map_values(f)
            =~= all_cmds(layers).map_values(f));
    }
}

} // verus!
