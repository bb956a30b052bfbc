//! The interface a platform backend offers for one physical monitor.

use vstd::prelude::*;

use crate::cap::{Capabilities, Input};
use crate::display::Error;

verus! {

/// One physical monitor under a platform's control channel: its friendly
/// name, the capability model decoded from its capability string, and the
/// get/set access to the input-select control.  Platform layers implement
/// this for their handle types; nothing in this crate does.
pub trait Monitor {
    fn name(&self) -> &str;

    fn capabilities(&self) -> &Capabilities;

    fn input(&self) -> Result<Input, Error>;

    fn set_input(&mut self, input: Input) -> Result<(), Error>;
}

} // verus!
