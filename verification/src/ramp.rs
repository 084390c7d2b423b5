use vstd::prelude::*;

use crate::bytes::Bytes;
use crate::error::ConfigError;

verus! {

/// The pause after each ramp step and between two idle ticks, in milliseconds.
pub const STEP_INTERVAL_MS: u64 = 500;

/// The size that is reached when none is asked for: ten binary megabytes.
pub const DEFAULT_FINAL_BYTES: i64 = 10485760;

/// What to claim, how fast, and for how long.
#[derive(Debug, Clone, Copy, PartialEq, Eq, Structural)]
pub struct RampConfig {
    /// The size claimed at once, before anything else.
    pub start_bytes: Bytes,
    /// The size to reach.
    pub final_bytes: Bytes,
    /// How long the way from the start size to the final size takes, in
    /// milliseconds; 0 claims the difference in one request.
    pub step_duration_ms: u64,
    /// After how many milliseconds the process ends itself; 0 for never.
    pub exit_timeout_ms: u64,
}

/// One thing for the driver to do.
#[derive(Debug, Clone, Copy, PartialEq, Eq, Structural)]
pub enum Action {
    /// Start the detached timer that ends the process with status 0 after
    /// `millis` milliseconds.
    ArmExitTimer { millis: u64 },
    /// Claim `bytes` bytes of resident memory in one request and abandon them.
    Allocate { bytes: i128 },
    /// Sleep for `millis` milliseconds.
    Pause { millis: u64 },
    /// Report that all the memory has been claimed.
    Announce,
}

/// `steps` ramp steps: each claims `bytes` bytes and then pauses for one
/// step interval.
pub open spec fn ramp_actions(steps: nat, bytes: int) -> Seq<Action> {
    Seq::new(
        2 * steps,
        |i: int|
            if i % 2 == 0 {
                Action::Allocate { bytes: bytes as i128 }
            } else {
                Action::Pause { millis: STEP_INTERVAL_MS }
            },
    )
}

impl Action {
    /// How long the action sleeps, in milliseconds.
    pub open spec fn pause_millis(self) -> nat {
        match self {
            Action::Pause { millis } => millis as nat,
            _ => 0,
        }
    }

    /// How many bytes the action claims.
    pub open spec fn claimed_bytes(self) -> int {
        match self {
            Action::Allocate { bytes } => bytes as int,
            _ => 0,
        }
    }
}

/// The time that `actions` spend asleep, in milliseconds.
pub open spec fn total_pause(actions: Seq<Action>) -> nat
    decreases actions.len(),
{
    if actions.len() == 0 {
        0
    } else {
        total_pause(actions.drop_last()) + actions.last().pause_millis()
    }
}

/// The number of bytes that `actions` claim.
pub open spec fn total_claimed(actions: Seq<Action>) -> int
    decreases actions.len(),
{
    if actions.len() == 0 {
        0
    } else {
        total_claimed(actions.drop_last()) + actions.last().claimed_bytes()
    }
}

/// The number of requests for memory among `actions`.
pub open spec fn allocation_count(actions: Seq<Action>) -> nat
    decreases actions.len(),
{
    if actions.len() == 0 {
        0
    } else {
        allocation_count(actions.drop_last()) + if actions.last() is Allocate {
            1nat
        } else {
            0nat
        }
    }
}

impl RampConfig {
    /// Whether the memory grows in steps.
    pub open spec fn ramp_enabled(self) -> bool {
        self.step_duration_ms > 0
    }

    /// The number of ramp steps: the duration in half seconds, rounded to
    /// the nearest whole number, a half rounded up.
    pub open spec fn spec_step_count(self) -> nat {
        ((self.step_duration_ms + STEP_INTERVAL_MS / 2) / (STEP_INTERVAL_MS as int)) as nat
    }

    /// The difference between the final size and the start size.
    pub open spec fn delta(self) -> int {
        self.final_bytes.0 - self.start_bytes.0
    }

    /// The size of one ramp step: the difference divided by the number of
    /// steps, rounded towards zero; 0 where there is no step.
    pub open spec fn spec_step_bytes(self) -> int {
        let steps = self.spec_step_count() as int;
        if steps == 0 {
            0
        } else if self.delta() >= 0 {
            self.delta() / steps
        } else {
            -((-self.delta()) / steps)
        }
    }

    /// A configuration is refused where it asks for a ramp downwards.
    pub open spec fn spec_validate(self) -> Result<(), ConfigError> {
        if self.ramp_enabled() && self.start_bytes.0 > self.final_bytes.0 {
            Err(ConfigError::FinalBelowStart)
        } else {
            Ok(())
        }
    }

    /// The arming of the exit timer, where one is asked for.
    pub open spec fn timer_actions(self) -> Seq<Action> {
        if self.exit_timeout_ms > 0 {
            seq![Action::ArmExitTimer { millis: self.exit_timeout_ms }]
        } else {
            Seq::empty()
        }
    }

    /// What follows the first request: the ramp, or the whole difference in
    /// one request.
    pub open spec fn growth_actions(self) -> Seq<Action> {
        if self.ramp_enabled() {
            ramp_actions(self.spec_step_count(), self.spec_step_bytes())
        } else {
            seq![Action::Allocate { bytes: self.delta() as i128 }]
        }
    }

    /// Everything that is done before idling, in order.
    pub open spec fn plan(self) -> Seq<Action> {
        self.timer_actions() + seq![Action::Allocate { bytes: self.start_bytes.0 as i128 }]
            + self.growth_actions() + seq![Action::Announce]
    }

    /// The action at position `k` of the run: the plan, then one pause
    /// after another without end.
    pub open spec fn action_at(self, k: nat) -> Action {
        if k < self.plan().len() {
            self.plan()[k as int]
        } else {
            Action::Pause { millis: STEP_INTERVAL_MS }
        }
    }

    /// The number of ramp steps.
    pub fn step_count(&self) -> (steps: u64)
        ensures
            steps == self.spec_step_count(),
    {
        let whole: u64 = self.step_duration_ms / STEP_INTERVAL_MS;
        if self.step_duration_ms % STEP_INTERVAL_MS >= STEP_INTERVAL_MS / 2 {
            whole + 1
        } else {
            whole
        }
    }

    /// The size of one ramp step.
    pub fn step_bytes(&self) -> (bytes: i128)
        ensures
            bytes == self.spec_step_bytes(),
    {
        let steps: i128 = self.step_count() as i128;
        let delta: i128 = self.final_bytes.0 as i128 - self.start_bytes.0 as i128;
        if steps == 0 {
            0
        } else if delta >= 0 {
            delta / steps
        } else {
            -((-delta) / steps)
        }
    }

    /// Checks the configuration.
    pub fn validate(&self) -> (checked: Result<(), ConfigError>)
        ensures
            checked == self.spec_validate(),
    {
        if self.step_duration_ms > 0 && self.start_bytes.0 > self.final_bytes.0 {
            Err(ConfigError::FinalBelowStart)
        } else {
            Ok(())
        }
    }
}

/// The totals of a run of actions followed by another are the sums of the
/// totals of the two.
pub proof fn lemma_totals_add(first: Seq<Action>, second: Seq<Action>)
    ensures
        total_pause(first + second) == total_pause(first) + total_pause(second),
        total_claimed(first + second) == total_claimed(first) + total_claimed(second),
        allocation_count(first + second) == allocation_count(first) + allocation_count(second),
    decreases second.len(),
{
    if second.len() == 0 {
        assert(first + second =~= first);
    } else {
        lemma_totals_add(first, second.drop_last());
        assert((first + second).drop_last() =~= first + second.drop_last());
    }
}

/// A ramp of `steps` steps makes `steps` requests of `bytes` bytes each
/// and sleeps one step interval after each of them.
pub proof fn lemma_ramp_totals(steps: nat, bytes: int)
    requires
        i128::MIN <= bytes <= i128::MAX,
    ensures
        ramp_actions(steps, bytes).len() == 2 * steps,
        forall|k: int|
            0 <= k < 2 * steps ==> #[trigger] ramp_actions(steps, bytes)[k] == if k % 2 == 0 {
                Action::Allocate { bytes: bytes as i128 }
            } else {
                Action::Pause { millis: STEP_INTERVAL_MS }
            },
        allocation_count(ramp_actions(steps, bytes)) == steps,
        total_pause(ramp_actions(steps, bytes)) == STEP_INTERVAL_MS * steps,
        total_claimed(ramp_actions(steps, bytes)) == steps * bytes,
    decreases steps,
{
    if steps > 0 {
        let shorter = ramp_actions((steps - 1) as nat, bytes);
        let step = seq![
            Action::Allocate { bytes: bytes as i128 },
            Action::Pause { millis: STEP_INTERVAL_MS },
        ];
        lemma_ramp_totals((steps - 1) as nat, bytes);
        assert(ramp_actions(steps, bytes) =~= shorter + step);
        lemma_totals_add(shorter, step);
        reveal_with_fuel(total_pause, 3);
        reveal_with_fuel(total_claimed, 3);
        reveal_with_fuel(allocation_count, 3);
        assert(step.drop_last() =~= seq![Action::Allocate { bytes: bytes as i128 }]);
        assert(step.drop_last().drop_last() =~= Seq::<Action>::empty());
        assert(steps * bytes == (steps - 1) * bytes + bytes) by (nonlinear_arith);
    }
}

/// The number of ramp steps is the duration in half seconds, rounded to the
/// nearest whole number: the steps take within a quarter of a second of the
/// duration.
pub proof fn lemma_step_count_rounds(config: RampConfig)
    ensures
        STEP_INTERVAL_MS * config.spec_step_count() - STEP_INTERVAL_MS / 2
            <= config.step_duration_ms,
        config.step_duration_ms < STEP_INTERVAL_MS * config.spec_step_count() + STEP_INTERVAL_MS
            / 2,
{
}

/// With a ramp, the run makes one request for the start size and then as
/// many equal requests as there are steps, each followed by one step
/// interval of sleep and by nothing else. The time asleep is within one step
/// interval of the duration asked for, and the run claims the final size
/// but for less than one byte a step.
pub proof fn lemma_ramp_plan(config: RampConfig)
    requires
        config.ramp_enabled(),
    ensures
        config.plan() == config.timer_actions() + seq![
            Action::Allocate { bytes: config.start_bytes.0 as i128 },
        ] + ramp_actions(config.spec_step_count(), config.spec_step_bytes()) + seq![
            Action::Announce,
        ],
        allocation_count(config.growth_actions()) == config.spec_step_count(),
        allocation_count(config.plan()) == 1 + config.spec_step_count(),
        total_pause(config.plan()) == STEP_INTERVAL_MS * config.spec_step_count(),
        config.step_duration_ms - STEP_INTERVAL_MS < total_pause(config.plan())
            < config.step_duration_ms + STEP_INTERVAL_MS,
        total_claimed(config.growth_actions()) == config.spec_step_count()
            * config.spec_step_bytes(),
        total_claimed(config.plan()) == config.start_bytes.0 + config.spec_step_count()
            * config.spec_step_bytes(),
        config.spec_validate() is Ok && config.spec_step_count() > 0 ==> config.final_bytes.0
            - config.spec_step_count() < total_claimed(config.plan()) <= config.final_bytes.0,
{
    let steps = config.spec_step_count();
    let bytes = config.spec_step_bytes();
    let head = config.timer_actions() + seq![
        Action::Allocate { bytes: config.start_bytes.0 as i128 },
    ];
    let tail = seq![Action::Announce];
    lemma_step_bytes_bounds(config);
    lemma_ramp_totals(steps, bytes);
    lemma_totals_add(head + config.growth_actions(), tail);
    lemma_totals_add(head, config.growth_actions());
    lemma_totals_add(
        config.timer_actions(),
        seq![Action::Allocate { bytes: config.start_bytes.0 as i128 }],
    );
    reveal_with_fuel(total_pause, 2);
    reveal_with_fuel(total_claimed, 2);
    reveal_with_fuel(allocation_count, 2);
    if config.spec_validate() is Ok && steps > 0 {
        let delta = config.delta();
        assert(delta - steps < steps * (delta / (steps as int)) <= delta) by (nonlinear_arith)
            requires
                steps > 0,
                delta >= 0,
        ;
    }
}

/// One ramp step is never larger in magnitude than the whole difference.
pub proof fn lemma_step_bytes_bounds(config: RampConfig)
    ensures
        config.delta() >= 0 ==> 0 <= config.spec_step_bytes() <= config.delta(),
        config.delta() <= 0 ==> config.delta() <= config.spec_step_bytes() <= 0,
{
    let steps = config.spec_step_count() as int;
    let delta = config.delta();
    if steps > 0 {
        if delta >= 0 {
            assert(0 <= delta / steps <= delta) by (nonlinear_arith)
                requires
                    steps > 0,
                    delta >= 0,
            ;
        } else {
            assert(0 <= (-delta) / steps <= -delta) by (nonlinear_arith)
                requires
                    steps > 0,
                    delta < 0,
            ;
        }
    }
}

/// Without a ramp, the run makes one request for the start size and one
/// for the whole difference, which add up to the final size, and does not
/// sleep before it idles.
pub proof fn lemma_single_shot_plan(config: RampConfig)
    requires
        !config.ramp_enabled(),
    ensures
        config.plan() == config.timer_actions() + seq![
            Action::Allocate { bytes: config.start_bytes.0 as i128 },
            Action::Allocate { bytes: (config.final_bytes.0 - config.start_bytes.0) as i128 },
            Action::Announce,
        ],
        allocation_count(config.plan()) == 2,
        total_pause(config.plan()) == 0,
        total_claimed(config.growth_actions()) == config.final_bytes.0 - config.start_bytes.0,
        total_claimed(config.plan()) == config.final_bytes.0,
{
    let body = seq![
        Action::Allocate { bytes: config.start_bytes.0 as i128 },
        Action::Allocate { bytes: (config.final_bytes.0 - config.start_bytes.0) as i128 },
        Action::Announce,
    ];
    assert(config.plan() =~= config.timer_actions() + body);
    lemma_totals_add(config.timer_actions(), body);
    reveal_with_fuel(total_pause, 4);
    reveal_with_fuel(total_claimed, 4);
    reveal_with_fuel(allocation_count, 4);
    assert(body.drop_last() =~= seq![
        Action::Allocate { bytes: config.start_bytes.0 as i128 },
        Action::Allocate { bytes: (config.final_bytes.0 - config.start_bytes.0) as i128 },
    ]);
    assert(body.drop_last().drop_last() =~= seq![
        Action::Allocate { bytes: config.start_bytes.0 as i128 },
    ]);
    assert(body.drop_last().drop_last().drop_last() =~= Seq::<Action>::empty());
    assert(config.growth_actions().drop_last() =~= Seq::<Action>::empty());
}

impl Default for RampConfig {
    /// Ten binary megabytes at once, no ramp, no exit timer.
    fn default() -> (config: RampConfig)
        ensures
            config == (RampConfig {
                start_bytes: Bytes(0),
                final_bytes: Bytes(DEFAULT_FINAL_BYTES),
                step_duration_ms: 0,
                exit_timeout_ms: 0,
            }),
    {
        RampConfig {
            start_bytes: Bytes(0),
            final_bytes: Bytes(DEFAULT_FINAL_BYTES),
            step_duration_ms: 0,
            exit_timeout_ms: 0,
        }
    }
}

} // verus!
