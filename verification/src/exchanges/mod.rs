use crate::bot::trading::Tick;
use crate::crypto::treasury::Treasured;
use vstd::prelude::*;

pub mod kraken;
pub mod mandala;

verus! {

/// What every venue's driver offers the scheduler.
pub trait Exchange: Treasured {
    /// The name under which the driver is registered.
    fn get_identifier(&self) -> String;

    /// The name to show.
    fn get_display_name(&self) -> String;

    /// The pulse to publish to the brokers for a tick: actionable where the
    /// tick is actionable, else output on a debug tick, else silent.
    fn tick(&self, debug: bool, actionable: bool) -> (tick: Tick)
        ensures
            tick == Tick::of(debug, actionable),
    ;
}

} // verus!
