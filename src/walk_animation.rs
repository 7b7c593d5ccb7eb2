use vstd::prelude::*;
use crate::direction::{unit_vector, Direction, StepPoint};
use crate::protocol::Position;

verus! {

/// How long each running stage of the walk cycle lasts, in nanoseconds.
pub const STAGE_DURATION_NANOS: u64 = 100_000_000;

/// One tile is drawn as this many steps of the walk cycle.
pub const STEPS_PER_TILE: u16 = 3;

/// The stages of the walk cycle; `Stop` means not walking.
#[derive(Clone, Copy, Debug, PartialEq, Eq, Structural)]
pub enum WalkStage {
    Stop,
    Step1,
    Pause,
    Step2,
}

pub open spec fn next_stage(s: WalkStage) -> WalkStage {
    match s {
        WalkStage::Step1 => WalkStage::Pause,
        WalkStage::Pause => WalkStage::Step2,
        WalkStage::Step2 => WalkStage::Stop,
        WalkStage::Stop => WalkStage::Stop,
    }
}

/// Frame of the stage within a direction's bank; `Stop` shows the
/// standing frame that `Pause` also uses.
pub open spec fn stage_sprite_index(s: WalkStage) -> nat {
    match s {
        WalkStage::Step1 => 0,
        WalkStage::Pause => 1,
        WalkStage::Step2 => 2,
        WalkStage::Stop => 1,
    }
}

/// How many steps the sprite is drawn behind its tile during the stage.
pub open spec fn stage_steps(s: WalkStage) -> nat {
    match s {
        WalkStage::Step1 => 3,
        WalkStage::Pause => 2,
        WalkStage::Step2 => 1,
        WalkStage::Stop => 0,
    }
}

/// Abstract state of a walk: the stage and the nanoseconds spent in it.
pub type WalkState = (WalkStage, nat);

pub open spec fn valid_walk(v: WalkState) -> bool {
    &&& v.1 < STAGE_DURATION_NANOS
    &&& v.0 == WalkStage::Stop ==> v.1 == 0
}

/// The state after `delta` nanoseconds: a running stage whose time is up
/// moves on to the next stage with a fresh timer; any time beyond the
/// stage's end is dropped, so one tick advances at most one stage.
pub open spec fn ticked(v: WalkState, delta: nat) -> WalkState {
    if v.0 == WalkStage::Stop {
        v
    } else if v.1 + delta >= STAGE_DURATION_NANOS {
        (next_stage(v.0), 0)
    } else {
        (v.0, v.1 + delta)
    }
}

impl WalkStage {
    pub fn next(&self) -> (r: WalkStage)
        ensures
            r == next_stage(*self),
    {
        match self {
            WalkStage::Step1 => WalkStage::Pause,
            WalkStage::Pause => WalkStage::Step2,
            WalkStage::Step2 => WalkStage::Stop,
            WalkStage::Stop => WalkStage::Stop,
        }
    }

    pub fn sprite_index(&self) -> (r: u32)
        ensures
            r == stage_sprite_index(*self),
    {
        match self {
            WalkStage::Step1 => 0,
            WalkStage::Pause => 1,
            WalkStage::Step2 => 2,
            WalkStage::Stop => 1,
        }
    }

    pub fn step_offset(&self) -> (r: u16)
        ensures
            r == stage_steps(*self),
    {
        match self {
            WalkStage::Step1 => 3,
            WalkStage::Pause => 2,
            WalkStage::Step2 => 1,
            WalkStage::Stop => 0,
        }
    }
}

/// The walk cycle of one player: a stage and, while walking, the time
/// spent in it. A non-repeating countdown per stage: it finishes once the
/// elapsed time reaches the stage duration.
#[derive(Clone, Copy, Debug)]
pub struct WalkAnimation {
    stage: WalkStage,
    timer: Option<u64>,
}

impl View for WalkAnimation {
    type V = WalkState;

    closed spec fn view(&self) -> WalkState {
        (self.stage, match self.timer {
            Some(e) => e as nat,
            None => 0,
        })
    }
}

impl WalkAnimation {
    /// The timer runs exactly while a stage other than `Stop` is shown.
    pub closed spec fn wf(&self) -> bool {
        &&& (self.stage == WalkStage::Stop) == self.timer.is_none()
        &&& valid_walk(self@)
    }

    /// Whether a walk is in progress.
    pub fn running(&self) -> (r: bool)
        requires
            self.wf(),
        ensures
            r == (self@.0 != WalkStage::Stop),
    {
        self.timer.is_some()
    }

    /// A walk that has just begun: the first step with a fresh timer.
    pub fn new() -> (r: WalkAnimation)
        ensures
            r.wf(),
            r@ == (WalkStage::Step1, 0nat),
    {
        WalkAnimation { stage: WalkStage::Step1, timer: Some(0) }
    }

    pub fn stage(&self) -> (r: WalkStage)
        ensures
            r == self@.0,
    {
        self.stage
    }

    /// Frame of the current stage within a direction's bank.
    pub fn sprite_index_offset(&self) -> (r: u32)
        ensures
            r == stage_sprite_index(self@.0),
    {
        self.stage.sprite_index()
    }

    /// Lets `delta` nanoseconds pass.
    pub fn tick(&mut self, delta: u64)
        requires
            old(self).wf(),
        ensures
            final(self).wf(),
            final(self)@ == ticked(old(self)@, delta as nat),
    {
        self.stage_finished(delta);
    }

    /// Lets `delta` nanoseconds pass and tells whether the stage changed.
    pub fn stage_finished(&mut self, delta: u64) -> (r: bool)
        requires
            old(self).wf(),
        ensures
            final(self).wf(),
            final(self)@ == ticked(old(self)@, delta as nat),
            r == (old(self)@.0 != WalkStage::Stop && old(self)@.1 + delta >= STAGE_DURATION_NANOS),
    {
        match self.timer {
            Some(elapsed) => {
                if delta >= STAGE_DURATION_NANOS - elapsed {
                    self.next();
                    true
                } else {
                    self.timer = Some(elapsed + delta);
                    false
                }
            },
            None => false,
        }
    }

    /// Moves on to the next stage, arming a fresh timer unless the walk is over.
    pub fn next(&mut self)
        ensures
            final(self).wf(),
            final(self)@ == (next_stage(old(self)@.0), 0nat),
    {
        self.stage = self.stage.next();
        if self.stage == WalkStage::Stop {
            self.timer = None;
        } else {
            self.timer = Some(0);
        }
    }

    /// Where to draw a player standing on `position` and facing
    /// `direction`, in steps: the tile's corner pulled back against the
    /// facing by the current stage's offset.
    pub fn translate(&self, position: &Position, direction: &Direction) -> (r: StepPoint)
        ensures
            r.x == STEPS_PER_TILE * position.x - unit_vector(*direction).0 * stage_steps(self@.0),
            r.y == STEPS_PER_TILE * position.y - unit_vector(*direction).1 * stage_steps(self@.0),
    {
        let offset = self.stage.step_offset() as i64;
        let mut point = StepPoint {
            x: STEPS_PER_TILE as i64 * position.x as i64,
            y: STEPS_PER_TILE as i64 * position.y as i64,
        };
        match direction {
            Direction::East => point.x = point.x - offset,
            Direction::West => point.x = point.x + offset,
            Direction::North => point.y = point.y - offset,
            Direction::South => point.y = point.y + offset,
        }
        point
    }
}

impl Default for WalkAnimation {
    /// Not walking.
    fn default() -> (r: WalkAnimation)
        ensures
            r.wf(),
            r@ == (WalkStage::Stop, 0nat),
    {
        WalkAnimation { stage: WalkStage::Stop, timer: None }
    }
}

/// Starting a walk always shows the first step with the walk running;
/// ticking a freshly armed stage by exactly the stage duration advances
/// exactly one stage; three full durations after the start the walk has
/// stopped.
pub proof fn lemma_walk_cycle(s: WalkStage)
    requires
        s != WalkStage::Stop,
    ensures
        ticked((s, 0nat), STAGE_DURATION_NANOS as nat) == (next_stage(s), 0nat),
        next_stage(s) != s,
        ticked((s, 0nat), (STAGE_DURATION_NANOS - 1) as nat) == (s, (STAGE_DURATION_NANOS - 1) as nat),
        ticked(ticked(ticked((WalkStage::Step1, 0nat), STAGE_DURATION_NANOS as nat),
            STAGE_DURATION_NANOS as nat), STAGE_DURATION_NANOS as nat) == (WalkStage::Stop, 0nat),
{
}

/// Whatever time a running stage has already spent, ticking by exactly the
/// time it has left moves on by one stage, never two, and ticking by less
/// keeps the stage.
pub proof fn lemma_exact_boundary(v: WalkState, short: nat)
    requires
        valid_walk(v),
        v.0 != WalkStage::Stop,
        v.1 + short < STAGE_DURATION_NANOS,
    ensures
        ticked(v, (STAGE_DURATION_NANOS - v.1) as nat) == (next_stage(v.0), 0nat),
        ticked(v, short) == (v.0, v.1 + short),
        ticked(v, short).0 == v.0,
{
}

/// Every tick keeps the walk state valid, and a stopped walk stays put.
pub proof fn lemma_ticked_valid(v: WalkState, delta: nat)
    requires
        valid_walk(v),
    ensures
        valid_walk(ticked(v, delta)),
        v.0 == WalkStage::Stop ==> ticked(v, delta) == v,
{
}

} // verus!
