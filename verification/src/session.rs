use vstd::prelude::*;

verus! {

/// The library's state between `init` and `finish`: whether it is set up,
/// and whether random data comes from the system's random device.
#[derive(Clone, Copy, PartialEq, Eq, Structural, Debug)]
pub struct Session {
    pub initialized: bool,
    pub device: bool,
}

/// The state after setting up: set up, with the generator as the source of
/// random data until the device is opened.
pub open spec fn initialized_state() -> Session {
    Session { initialized: true, device: false }
}

/// The state after shutting down.
pub open spec fn finished_state() -> Session {
    Session { initialized: false, device: false }
}

/// The state after recording whether the random device opened.
pub open spec fn with_device(s: Session, opened: bool) -> Session {
    Session { device: opened, ..s }
}

/// What shutting down in state `s` reports: whether the library was set up.
pub open spec fn finish_report(s: Session) -> bool {
    s.initialized
}

impl Session {
    /// A library that is not set up.
    pub fn new() -> (s: Session)
        ensures
            s == finished_state(),
    {
        Session { initialized: false, device: false }
    }

    /// Sets the library up; the answer says whether to open the random
    /// device, which is asked for `secure_random`.
    pub fn init(&mut self, secure_random: bool) -> (open_device: bool)
        ensures
            *final(self) == initialized_state(),
            open_device == secure_random,
    {
        self.initialized = true;
        self.device = false;
        secure_random
    }

    /// Records whether the random device could be opened.
    pub fn device_opened(&mut self, opened: bool)
        ensures
            *final(self) == with_device(*old(self), opened),
    {
        self.device = opened;
    }

    /// Shuts the library down, closing the device; the answer is false when
    /// it was not set up, which is a programming error to report.
    pub fn finish(&mut self) -> (was_initialized: bool)
        ensures
            *final(self) == finished_state(),
            was_initialized == finish_report(*old(self)),
    {
        let was = self.initialized;
        self.initialized = false;
        self.device = false;
        was
    }

    /// Whether an overwrite now is a programming error to report: the
    /// library is not set up.
    pub fn overwrite_unprepared(&self) -> (r: bool)
        ensures
            r == !self.initialized,
    {
        !self.initialized
    }
}

/// Setting up, recording the device (opened or not) and shutting down
/// reports that the library was set up; shutting down once more reports
/// that it was not.
pub proof fn lemma_init_finish(opened: bool)
    ensures
        finish_report(with_device(initialized_state(), opened)),
        !finish_report(finished_state()),
{
}

} // verus!
