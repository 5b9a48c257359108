//! The console: which outputs (serial port, framebuffer) text goes to.

use vstd::prelude::*;

verus! {

/// The outputs the console writes to.
pub struct Console {
    write_serial: bool,
    write_framebuffer: bool,
}

impl Console {
    /// Whether text goes to the serial port.
    pub closed spec fn spec_serial(&self) -> bool {
        self.write_serial
    }

    /// Whether text goes to the framebuffer.
    pub closed spec fn spec_framebuffer(&self) -> bool {
        self.write_framebuffer
    }

    /// A console writing to both outputs.
    pub fn new() -> (r: Self)
        ensures
            r.spec_serial(),
            r.spec_framebuffer(),
    {
        Console { write_serial: true, write_framebuffer: true }
    }

    /// Turns output to the serial port on or off.
    pub fn set_serial_enabled(&mut self, enabled: bool)
        ensures
            final(self).spec_serial() == enabled,
            final(self).spec_framebuffer() == old(self).spec_framebuffer(),
    {
        self.write_serial = enabled;
    }

    /// Turns output to the framebuffer on or off.
    pub fn set_framebuffer_enabled(&mut self, enabled: bool)
        ensures
            final(self).spec_framebuffer() == enabled,
            final(self).spec_serial() == old(self).spec_serial(),
    {
        self.write_framebuffer = enabled;
    }

    /// Whether text goes to the serial port.
    pub fn serial_enabled(&self) -> (r: bool)
        ensures
            r == self.spec_serial(),
    {
        self.write_serial
    }

    /// Whether text goes to the framebuffer.
    pub fn framebuffer_enabled(&self) -> (r: bool)
        ensures
            r == self.spec_framebuffer(),
    {
        self.write_framebuffer
    }
}

} // verus!
