//! Values that the service falls back on.

use vstd::prelude::*;

verus! {

/// The language tried when none of the requested ones is on offer.
pub const DEFAULT_LANGUAGE: &'static str = "en";

/// The listening port used when none is configured, as it is written.
pub const DEFAULT_PORT: &'static str = "5000";

/// The listening port used when none is configured.
pub const DEFAULT_PORT_NUMBER: u16 = 5000;

/// The log filter used when none is configured.
pub const DEFAULT_RUST_LOG: &'static str = "info";

} // verus!
