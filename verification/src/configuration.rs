//! What is known of an image once it has been configured.

use vstd::prelude::*;
use crate::architecture::Architecture;

verus! {

/// The configuration of an image: the architecture it was built for, and
/// whether it is on a device.
#[derive(Debug, Clone, Copy)]
pub struct Configuration {
    pub architecture: Architecture,
    pub on_device: bool,
}

} // verus!
