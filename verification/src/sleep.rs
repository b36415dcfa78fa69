//! Keeping the machine awake while the supervisor runs: which measure the
//! settings call for, and whether one is in force.

use vstd::prelude::*;
use crate::config::MacOsConfig;

verus! {

/// What is to be done to keep the machine awake.
#[derive(Debug, Clone, Copy, PartialEq, Eq, Structural)]
pub enum SleepStart {
    /// Nothing: prevention is switched off or the platform has none.
    Nothing,
    /// Run the helper that holds off idle sleep for as long as it lives.
    StartCaffeinate,
    /// Switch sleep off in the power settings.
    DisableSleep,
}

/// What is to be undone when the supervisor leaves.
#[derive(Debug, Clone, Copy, PartialEq, Eq, Structural)]
pub struct SleepStop {
    /// End the helper process.
    pub stop_caffeinate: bool,
    /// Switch sleep on again in the power settings.
    pub restore_sleep: bool,
}

/// Sleep prevention and its state.
#[derive(Debug)]
pub struct SleepPreventer {
    pub config: MacOsConfig,
    /// Whether the helper process runs.
    pub caffeinate_active: bool,
}

impl SleepPreventer {
    /// The measure that a start takes.
    pub open spec fn start_spec(&self, supported: bool) -> SleepStart {
        if !self.config.prevent_sleep || !supported {
            SleepStart::Nothing
        } else if self.config.use_caffeinate {
            SleepStart::StartCaffeinate
        } else {
            SleepStart::DisableSleep
        }
    }

    /// What a stop undoes.
    pub open spec fn stop_spec(&self, supported: bool) -> SleepStop {
        if !self.config.prevent_sleep || !supported {
            SleepStop { stop_caffeinate: false, restore_sleep: false }
        } else {
            SleepStop {
                stop_caffeinate: self.caffeinate_active,
                restore_sleep: self.config.restore_sleep_on_exit && !self.config.use_caffeinate,
            }
        }
    }

    /// Sleep prevention with no measure in force.
    pub fn new(config: MacOsConfig) -> (preventer: SleepPreventer)
        ensures
            preventer.config == config,
            !preventer.caffeinate_active,
    {
        SleepPreventer { config, caffeinate_active: false }
    }

    /// Chooses the measure to take. `supported` tells whether the platform
    /// has sleep prevention at all.
    pub fn start(&self, supported: bool) -> (step: SleepStart)
        ensures
            step == self.start_spec(supported),
    {
        if !self.config.prevent_sleep || !supported {
            SleepStart::Nothing
        } else if self.config.use_caffeinate {
            SleepStart::StartCaffeinate
        } else {
            SleepStart::DisableSleep
        }
    }

    /// Notes that the helper process was started.
    pub fn caffeinate_started(&mut self)
        ensures
            final(self).caffeinate_active,
            final(self).config == old(self).config,
    {
        self.caffeinate_active = true;
    }

    /// Says what is to be undone, and notes that the helper process is gone
    /// where it is to be ended.
    pub fn stop(&mut self, supported: bool) -> (step: SleepStop)
        ensures
            step == old(self).stop_spec(supported),
            final(self).config == old(self).config,
            final(self).caffeinate_active == (old(self).caffeinate_active && !step.stop_caffeinate),
    {
        if !self.config.prevent_sleep || !supported {
            SleepStop { stop_caffeinate: false, restore_sleep: false }
        } else {
            let stop_caffeinate = self.caffeinate_active;
            self.caffeinate_active = false;
            SleepStop {
                stop_caffeinate,
                restore_sleep: self.config.restore_sleep_on_exit && !self.config.use_caffeinate,
            }
        }
    }

    /// Whether sleep prevention is in force through the helper process.
    pub fn is_active(&self) -> (active: bool)
        ensures
            active == self.caffeinate_active,
    {
        self.caffeinate_active
    }
}

} // verus!
