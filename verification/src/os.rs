//! Platform identification and the OS adapter trait that each platform's
//! key-binding backend implements.

use vstd::prelude::*;

use crate::config::Config;
use crate::error::Error;

verus! {

/// Identifies the target operating system.
#[derive(Debug, Clone, Copy, PartialEq, Eq, Hash, Structural)]
pub enum OsPlatform {
    /// macOS
    Macos,
    /// Windows
    Windows,
    /// Linux
    Linux,
}

/// All known platforms, in the order macOS, Windows, Linux.
pub open spec fn all_platforms() -> Seq<OsPlatform> {
    seq![OsPlatform::Macos, OsPlatform::Windows, OsPlatform::Linux]
}

impl OsPlatform {
    /// All known platforms, in the order macOS, Windows, Linux.
    pub fn all() -> (r: Vec<OsPlatform>)
        ensures
            r@ == all_platforms(),
    {
        let mut v = Vec::new();
        v.push(OsPlatform::Macos);
        v.push(OsPlatform::Windows);
        v.push(OsPlatform::Linux);
        assert(v@ =~= all_platforms());
        v
    }
}

/// A platform-specific key binding backend: monitors key events and
/// dispatches actions. Implemented once per platform; shareable across
/// tasks.
pub trait OsAdapter: Send + Sync {
    /// Initializes the adapter (permissions, event taps or hooks).
    fn init(&mut self) -> Result<(), Error>;

    /// Starts listening for key events; must follow [`OsAdapter::init`].
    fn start(&mut self) -> Result<(), Error>;

    /// Stops listening for key events and releases resources.
    fn stop(&mut self) -> Result<(), Error>;

    /// Updates the adapter's configuration before it is re-initialized.
    /// Adapters that keep no copy of the configuration do nothing.
    fn set_config(&mut self, config: &Config) {
    }

    /// The platform this adapter targets.
    fn get_platform(&self) -> OsPlatform;
}

} // verus!
