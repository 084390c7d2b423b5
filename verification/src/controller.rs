use vstd::prelude::*;

use crate::error::ConfigError;
use crate::ramp::{Action, RampConfig, STEP_INTERVAL_MS};

verus! {

/// Where a run stands.
#[derive(Debug, Clone, Copy, PartialEq, Eq, Structural)]
enum Phase {
    Timer,
    Baseline,
    RampAllocate,
    RampPause,
    SingleShot,
    Announce,
    Idle,
}

/// What a controller stands for: its configuration and the number of
/// actions that it has handed out.
pub struct ControllerState {
    pub config: RampConfig,
    pub emitted: nat,
}

/// Hands out, one at a time, the actions of a run.
pub struct RampController {
    config: RampConfig,
    phase: Phase,
    steps_done: u64,
    emitted: Ghost<nat>,
}

impl View for RampController {
    type V = ControllerState;

    closed spec fn view(&self) -> ControllerState {
        ControllerState { config: self.config, emitted: self.emitted@ }
    }
}

impl RampController {
    #[verifier::type_invariant]
    spec fn well_formed(&self) -> bool {
        let config = self.config;
        let after_timer = config.timer_actions().len();
        let emitted = self.emitted@;
        &&& config.spec_validate() is Ok
        &&& match self.phase {
            Phase::Timer => config.exit_timeout_ms > 0 && emitted == 0,
            Phase::Baseline => emitted == after_timer,
            Phase::RampAllocate => {
                &&& config.ramp_enabled()
                &&& self.steps_done < config.spec_step_count()
                &&& emitted == after_timer + 1 + 2 * self.steps_done
            },
            Phase::RampPause => {
                &&& config.ramp_enabled()
                &&& self.steps_done < config.spec_step_count()
                &&& emitted == after_timer + 2 + 2 * self.steps_done
            },
            Phase::SingleShot => !config.ramp_enabled() && emitted == after_timer + 1,
            Phase::Announce => emitted + 1 == config.plan().len(),
            Phase::Idle => emitted >= config.plan().len(),
        }
    }

    /// A controller at the start of the run that `config` describes. A
    /// configuration that asks for a ramp downwards is refused.
    pub fn new(config: RampConfig) -> (made: Result<RampController, ConfigError>)
        ensures
            match made {
                Ok(controller) => config.spec_validate() is Ok && controller@ == (ControllerState {
                    config,
                    emitted: 0,
                }),
                Err(error) => config.spec_validate() == Err::<(), ConfigError>(error),
            },
    {
        match config.validate() {
            Err(error) => Err(error),
            Ok(()) => {
                let phase = if config.exit_timeout_ms > 0 {
                    Phase::Timer
                } else {
                    Phase::Baseline
                };
                Ok(RampController { config, phase, steps_done: 0, emitted: Ghost(0) })
            },
        }
    }

    /// The configuration of the run.
    pub fn config(&self) -> (config: RampConfig)
        ensures
            config == self@.config,
    {
        self.config
    }

    /// Whether the whole plan has been handed out, so that nothing but
    /// pauses follows.
    pub fn is_idle(&self) -> (idle: bool)
        ensures
            idle == (self@.emitted >= self@.config.plan().len()),
    {
        proof {
            use_type_invariant(self);
        }
        self.phase == Phase::Idle
    }

    /// Hands out the next action of the run.
    pub fn next_action(&mut self) -> (action: Action)
        ensures
            action == old(self)@.config.action_at(old(self)@.emitted),
            final(self)@ == (ControllerState {
                config: old(self)@.config,
                emitted: old(self)@.emitted + 1,
            }),
    {
        proof {
            use_type_invariant(&*self);
        }
        let config = self.config;
        let ghost emitted = self.emitted@;
        let steps_done: u64 = self.steps_done;
        let (action, phase, steps_done) = match self.phase {
            Phase::Timer => (
                Action::ArmExitTimer { millis: config.exit_timeout_ms },
                Phase::Baseline,
                steps_done,
            ),
            Phase::Baseline => {
                let phase = if config.step_duration_ms == 0 {
                    Phase::SingleShot
                } else if config.step_count() > 0 {
                    Phase::RampAllocate
                } else {
                    Phase::Announce
                };
                (Action::Allocate { bytes: config.start_bytes.0 as i128 }, phase, 0)
            },
            Phase::RampAllocate => (
                Action::Allocate { bytes: config.step_bytes() },
                Phase::RampPause,
                steps_done,
            ),
            Phase::RampPause => {
                let phase = if steps_done + 1 < config.step_count() {
                    Phase::RampAllocate
                } else {
                    Phase::Announce
                };
                (Action::Pause { millis: STEP_INTERVAL_MS }, phase, steps_done + 1)
            },
            Phase::SingleShot => (
                Action::Allocate {
                    bytes: config.final_bytes.0 as i128 - config.start_bytes.0 as i128,
                },
                Phase::Announce,
                steps_done,
            ),
            Phase::Announce => (Action::Announce, Phase::Idle, steps_done),
            Phase::Idle => (Action::Pause { millis: STEP_INTERVAL_MS }, Phase::Idle, steps_done),
        };
        *self = RampController { config, phase, steps_done, emitted: Ghost(emitted + 1) };
        action
    }
}

} // verus!
