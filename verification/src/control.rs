//! The signals of the control bus.

use crate::settings::Settings;
use vstd::prelude::*;

verus! {

/// An intent that is broadcast to every long-lived task.
#[derive(Debug)]
pub enum ControlSignal {
    /// Take these settings from now on.
    Reconfigure(Settings),
    /// Drain and stop.
    Shutdown,
}

impl Clone for ControlSignal {
    fn clone(&self) -> (copy: ControlSignal)
        ensures
            copy == *self,
    {
        match self {
            ControlSignal::Reconfigure(settings) => ControlSignal::Reconfigure(settings.clone()),
            ControlSignal::Shutdown => ControlSignal::Shutdown,
        }
    }
}

} // verus!
