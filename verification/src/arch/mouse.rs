//! PS/2 mouse: assembling three-byte packets, decoding buttons and
//! movement, and tracking position and accumulated movement.

use vstd::prelude::*;

verus! {

/// The acknowledgement byte the mouse sends after a command.
pub const MOUSE_ACK: u8 = 0xFA;

/// Which buttons are down.
#[derive(Debug, Clone, Copy, PartialEq, Eq, Structural)]
pub struct MouseButtons {
    pub left: bool,
    pub right: bool,
    pub middle: bool,
}

impl MouseButtons {
    /// No button down.
    pub fn new() -> (r: Self)
        ensures
            r == (MouseButtons { left: false, right: false, middle: false }),
    {
        MouseButtons { left: false, right: false, middle: false }
    }
}

/// A decoded packet.
#[derive(Debug, Clone, Copy, PartialEq, Eq, Structural)]
pub struct MousePacket {
    pub buttons: MouseButtons,
    pub x_movement: i16,
    pub y_movement: i16,
    pub z_movement: i8,
}

/// The buttons of a packet's first byte.
pub open spec fn spec_buttons(b0: u8) -> MouseButtons {
    MouseButtons { left: b0 % 2 == 1, right: (b0 / 2) % 2 == 1, middle: (b0 / 4) % 2 == 1 }
}

/// A 9-bit movement: the byte, negative when the sign bit is set.
pub open spec fn spec_movement(sign: bool, b: u8) -> int {
    if sign {
        b - 256
    } else {
        b as int
    }
}

/// The packet three bytes make: buttons from the first, horizontal
/// movement from the second, vertical movement (upward positive) from the
/// third, the sign bits in the first, no wheel movement.
pub open spec fn spec_packet(b0: u8, b1: u8, b2: u8) -> MousePacket {
    MousePacket {
        buttons: spec_buttons(b0),
        x_movement: spec_movement((b0 / 16) % 2 == 1, b1) as i16,
        y_movement: (-spec_movement((b0 / 32) % 2 == 1, b2)) as i16,
        z_movement: 0,
    }
}

/// Whether a value fits in an `i32`.
pub open spec fn spec_fits_i32(v: int) -> bool {
    i32::MIN <= v <= i32::MAX
}

/// The mouse: the packet being assembled, position, buttons, movement
/// accumulated since it was last taken, and whether reporting is on.
pub struct Mouse {
    packet_bytes: [u8; 4],
    packet_index: usize,
    x: i32,
    y: i32,
    buttons: MouseButtons,
    delta_x: i32,
    delta_y: i32,
    scroll: i32,
    enabled: bool,
}

impl Mouse {
    /// The bytes of the packet being assembled.
    pub closed spec fn spec_pending(&self) -> Seq<u8> {
        self.packet_bytes@.take(self.packet_index as int)
    }

    /// The position.
    pub closed spec fn spec_position(&self) -> (i32, i32) {
        (self.x, self.y)
    }

    /// The accumulated movement: horizontal, vertical, wheel.
    pub closed spec fn spec_movement_taken(&self) -> (i32, i32, i32) {
        (self.delta_x, self.delta_y, self.scroll)
    }

    /// The buttons of the last packet.
    pub closed spec fn spec_buttons(&self) -> MouseButtons {
        self.buttons
    }

    /// Whether reporting is on.
    pub closed spec fn spec_enabled(&self) -> bool {
        self.enabled
    }

    /// Fewer than three bytes are pending.
    pub closed spec fn wf(&self) -> bool {
        self.packet_index < 3
    }

    /// Whether `byte` completes the pending packet and the position and
    /// accumulated movement then still fit in `i32`.
    pub open spec fn spec_byte_ok(&self, byte: u8) -> bool {
        self.spec_pending().len() == 2 ==> {
            let p = spec_packet(self.spec_pending()[0], self.spec_pending()[1], byte);
            &&& spec_fits_i32(self.spec_position().0 + p.x_movement)
            &&& spec_fits_i32(self.spec_position().1 + p.y_movement)
            &&& spec_fits_i32(self.spec_movement_taken().0 + p.x_movement)
            &&& spec_fits_i32(self.spec_movement_taken().1 + p.y_movement)
        }
    }

    /// At the origin, no button, no movement, nothing pending, off.
    pub fn new() -> (r: Self)
        ensures
            r.wf(),
            r.spec_pending() == Seq::<u8>::empty(),
            r.spec_position() == (0i32, 0i32),
            r.spec_movement_taken() == (0i32, 0i32, 0i32),
            r.spec_buttons() == (MouseButtons { left: false, right: false, middle: false }),
            !r.spec_enabled(),
    {
        let r = Mouse {
            packet_bytes: [0u8; 4],
            packet_index: 0,
            x: 0,
            y: 0,
            buttons: MouseButtons::new(),
            delta_x: 0,
            delta_y: 0,
            scroll: 0,
            enabled: false,
        };
        assert(r.spec_pending() =~= Seq::<u8>::empty());
        r
    }

    /// Marks reporting as on, once the mouse acknowledged its commands.
    pub fn set_enabled(&mut self)
        ensures
            final(self).spec_enabled(),
            final(self).wf() == old(self).wf(),
            final(self).spec_pending() == old(self).spec_pending(),
            final(self).spec_position() == old(self).spec_position(),
            final(self).spec_movement_taken() == old(self).spec_movement_taken(),
            final(self).spec_buttons() == old(self).spec_buttons(),
    {
        self.enabled = true;
    }

    /// Takes a byte from the mouse. A packet starts with a byte whose bit
    /// 3 is set (others are dropped while no packet is pending); the third
    /// byte completes it, and then the packet is decoded, its buttons
    /// recorded and its movement added to the position and the
    /// accumulated movement.
    pub fn process_byte(&mut self, byte: u8) -> (r: Option<MousePacket>)
        requires
            old(self).wf(),
            old(self).spec_byte_ok(byte),
        ensures
            final(self).wf(),
            final(self).spec_enabled() == old(self).spec_enabled(),
            old(self).spec_pending().len() == 0 && (byte / 8) % 2 == 0 ==> {
                &&& r is None
                &&& final(self).spec_pending() == old(self).spec_pending()
                &&& final(self).spec_position() == old(self).spec_position()
                &&& final(self).spec_movement_taken() == old(self).spec_movement_taken()
                &&& final(self).spec_buttons() == old(self).spec_buttons()
            },
            !(old(self).spec_pending().len() == 0 && (byte / 8) % 2 == 0) && old(self).spec_pending().len() < 2 ==> {
                &&& r is None
                &&& final(self).spec_pending() == old(self).spec_pending().push(byte)
                &&& final(self).spec_position() == old(self).spec_position()
                &&& final(self).spec_movement_taken() == old(self).spec_movement_taken()
                &&& final(self).spec_buttons() == old(self).spec_buttons()
            },
            old(self).spec_pending().len() == 2 ==> {
                let p = spec_packet(old(self).spec_pending()[0], old(self).spec_pending()[1], byte);
                &&& r == Some(p)
                &&& final(self).spec_pending() == Seq::<u8>::empty()
                &&& final(self).spec_buttons() == p.buttons
                &&& final(self).spec_position() == (
                    (old(self).spec_position().0 + p.x_movement) as i32,
                    (old(self).spec_position().1 + p.y_movement) as i32,
                )
                &&& final(self).spec_movement_taken() == (
                    (old(self).spec_movement_taken().0 + p.x_movement) as i32,
                    (old(self).spec_movement_taken().1 + p.y_movement) as i32,
                    old(self).spec_movement_taken().2,
                )
            },
    {
        if self.packet_index == 0 && (byte & 0x08) == 0 {
            assert((byte & 0x08) == 0 ==> (byte / 8) % 2 == 0) by (bit_vector);
            return None;
        }
        assert((byte & 0x08) != 0 ==> (byte / 8) % 2 == 1) by (bit_vector);
        let ghost before = self.packet_bytes@;
        self.packet_bytes[self.packet_index] = byte;
        self.packet_index = self.packet_index + 1;
        assert(self.packet_bytes@.take(self.packet_index as int) =~= before.take(self.packet_index - 1).push(byte));
        if self.packet_index >= 3 {
            self.packet_index = 0;
            let packet = self.parse_packet();
            self.buttons = packet.buttons;
            self.delta_x = self.delta_x + packet.x_movement as i32;
            self.delta_y = self.delta_y + packet.y_movement as i32;
            self.x = self.x + packet.x_movement as i32;
            self.y = self.y + packet.y_movement as i32;
            assert(self.spec_pending() =~= Seq::<u8>::empty());
            return Some(packet);
        }
        None
    }

    /// Decodes the three assembled bytes.
    fn parse_packet(&self) -> (r: MousePacket)
        ensures
            r == spec_packet(self.packet_bytes@[0], self.packet_bytes@[1], self.packet_bytes@[2]),
    {
        let byte0 = self.packet_bytes[0];
        let byte1 = self.packet_bytes[1];
        let byte2 = self.packet_bytes[2];
        let buttons = MouseButtons {
            left: (byte0 & 0x01) != 0,
            right: (byte0 & 0x02) != 0,
            middle: (byte0 & 0x04) != 0,
        };
        assert(((byte0 & 0x01) != 0) == (byte0 % 2 == 1) && ((byte0 & 0x02) != 0) == ((byte0 / 2) % 2 == 1) && ((
        byte0 & 0x04) != 0) == ((byte0 / 4) % 2 == 1) && ((byte0 & 0x10) != 0) == ((byte0 / 16) % 2 == 1) && ((byte0
            & 0x20) != 0) == ((byte0 / 32) % 2 == 1)) by (bit_vector);
        let x_movement: i16 = if (byte0 & 0x10) != 0 {
            byte1 as i16 - 256
        } else {
            byte1 as i16
        };
        let y_raw: i16 = if (byte0 & 0x20) != 0 {
            byte2 as i16 - 256
        } else {
            byte2 as i16
        };
        let y_movement: i16 = -y_raw;
        MousePacket { buttons, x_movement, y_movement, z_movement: 0 }
    }

    /// The position.
    pub fn position(&self) -> (r: (i32, i32))
        ensures
            r == self.spec_position(),
    {
        (self.x, self.y)
    }

    /// Moves the pointer, for keeping it within bounds.
    pub fn set_position(&mut self, x: i32, y: i32)
        ensures
            final(self).spec_position() == (x, y),
            final(self).wf() == old(self).wf(),
            final(self).spec_pending() == old(self).spec_pending(),
            final(self).spec_movement_taken() == old(self).spec_movement_taken(),
            final(self).spec_buttons() == old(self).spec_buttons(),
            final(self).spec_enabled() == old(self).spec_enabled(),
    {
        self.x = x;
        self.y = y;
    }

    /// The buttons of the last packet.
    pub fn buttons(&self) -> (r: MouseButtons)
        ensures
            r == self.spec_buttons(),
    {
        self.buttons
    }

    /// Returns the accumulated movement and starts accumulating afresh.
    pub fn take_movement(&mut self) -> (r: (i32, i32, i32))
        ensures
            r == old(self).spec_movement_taken(),
            final(self).spec_movement_taken() == (0i32, 0i32, 0i32),
            final(self).wf() == old(self).wf(),
            final(self).spec_pending() == old(self).spec_pending(),
            final(self).spec_position() == old(self).spec_position(),
            final(self).spec_buttons() == old(self).spec_buttons(),
            final(self).spec_enabled() == old(self).spec_enabled(),
    {
        let delta_x = self.delta_x;
        let delta_y = self.delta_y;
        let scroll = self.scroll;
        self.delta_x = 0;
        self.delta_y = 0;
        self.scroll = 0;
        (delta_x, delta_y, scroll)
    }

    /// Whether reporting is on.
    pub fn is_enabled(&self) -> (r: bool)
        ensures
            r == self.spec_enabled(),
    {
        self.enabled
    }
}

/// Whether the mouse acknowledged a command.
pub fn check_ack(response: u8) -> (r: Result<(), &'static str>)
    ensures
        response == MOUSE_ACK ==> r is Ok,
        response != MOUSE_ACK ==> r == Err::<(), &'static str>("Mouse did not acknowledge"),
{
    if response == MOUSE_ACK {
        Ok(())
    } else {
        Err("Mouse did not acknowledge")
    }
}

/// Decoding keeps the sign-extension of the protocol: a movement byte with
/// its sign bit set stands for the byte minus 256, so movements lie in
/// -256..=255 horizontally and -255..=256 vertically.
pub proof fn lemma_packet_ranges(b0: u8, b1: u8, b2: u8)
    ensures
        -256 <= spec_packet(b0, b1, b2).x_movement <= 255,
        -255 <= spec_packet(b0, b1, b2).y_movement <= 256,
{
}

} // verus!
