use vstd::prelude::*;

use crate::services::{fresh_status, Service, ServiceRegistry, ServiceStatus};

verus! {

#[allow(dead_code)]
const VERSION: &'static str = "2.5.5";

/// The name under which the nucleus itself is registered.
pub const NUCLEUS_COMPONENT_NAME: &'static str = "aws.greengrass.Nucleus";

/// The nucleus.
pub struct Kernel {}

impl Service for Kernel {
    /// Registers the nucleus under its component name, with a status that
    /// names no component and no version.
    fn enable(services: &mut ServiceRegistry)
        ensures
            final(services)@ == old(services)@.insert(NUCLEUS_COMPONENT_NAME@, fresh_status(""@, ""@)),
    {
        let name = String::from_str(NUCLEUS_COMPONENT_NAME);
        let status: ServiceStatus = Self::new("", "");
        services.insert(name, status);
    }
}

} // verus!
