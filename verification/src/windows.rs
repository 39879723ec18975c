//! The Windows adapter.

use vstd::prelude::*;

use crate::config::Config;
use crate::error::{Error, ErrorView};
use crate::os::{OsAdapter, OsPlatform};

verus! {

broadcast use vstd::string::group_string_axioms;

/// A Windows adapter that installs global key bindings.
pub struct WindowsAdapter {
    /// Whether the adapter has been initialized.
    initialized: bool,
}

impl WindowsAdapter {
    /// Whether the adapter has been initialized.
    pub closed spec fn is_initialized(self) -> bool {
        self.initialized
    }

    /// A new, uninitialized Windows adapter.
    pub fn new() -> (r: Self)
        ensures
            !r.is_initialized(),
    {
        WindowsAdapter { initialized: false }
    }
}

impl OsAdapter for WindowsAdapter {
    fn init(&mut self) -> (r: Result<(), Error>)
        ensures
            r is Ok,
            final(self).is_initialized(),
    {
        self.initialized = true;
        Ok(())
    }

    fn start(&mut self) -> (r: Result<(), Error>)
        ensures
            final(self).is_initialized() == old(self).is_initialized(),
            match r {
                Ok(()) => old(self).is_initialized(),
                Err(e) => !old(self).is_initialized() && e@ == ErrorView::AdapterNotAvailable(
                    "Windows adapter not initialized"@,
                ),
            },
    {
        if !self.initialized {
            return Err(Error::AdapterNotAvailable(String::from_str("Windows adapter not initialized")));
        }
        Ok(())
    }

    fn stop(&mut self) -> (r: Result<(), Error>)
        ensures
            r is Ok,
            !final(self).is_initialized(),
    {
        self.initialized = false;
        Ok(())
    }

    fn get_platform(&self) -> (r: OsPlatform)
        ensures
            r == OsPlatform::Windows,
    {
        OsPlatform::Windows
    }
}

} // verus!
