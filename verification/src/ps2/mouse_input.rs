//! Mouse input on the auxiliary channel.
//!
//! ```text
//! byte 0: [ Yov | Xov | Ysign | Xsign | 1 | middle | right | left ]
//! byte 1: X movement, low 8 bits of 9
//! byte 2: Y movement, low 8 bits of 9
//! ```
//!
//! Larger movements are limited to what 9 bits hold, so the overflow bits stay 0.

use vstd::prelude::*;

verus! {

/// Pause between the bytes of a packet.
pub const BYTE_GAP_MS: u64 = 5;

/// A mouse button.
#[derive(Debug, Clone, Copy, PartialEq, Eq, Structural)]
pub enum MouseBtn {
    Left,
    Right,
    Middle,
}

/// The bit of a button.
pub open spec fn mask_of(btn: MouseBtn) -> u8 {
    match btn {
        MouseBtn::Left => 0x01,
        MouseBtn::Right => 0x02,
        MouseBtn::Middle => 0x04,
    }
}

impl MouseBtn {
    /// The bit of the button.
    pub fn mask(self) -> (r: u8)
        ensures
            r == mask_of(self),
    {
        match self {
            MouseBtn::Left => 0x01,
            MouseBtn::Right => 0x02,
            MouseBtn::Middle => 0x04,
        }
    }
}

/// What the mouse does.
#[derive(Debug, Clone, Copy, PartialEq, Eq, Structural)]
pub enum MouseCmd {
    Move { dx: i16, dy: i16 },
    Button { btn: MouseBtn, down: bool },
}

/// A movement, limited to 9 bits.
pub open spec fn limited(d: i16) -> int {
    if d < -256 {
        -256
    } else if d > 255 {
        255
    } else {
        d as int
    }
}

/// The packet for a movement with the given buttons held.
pub open spec fn packet_for(dx: i16, dy: i16, buttons: u8) -> Seq<u8> {
    seq![
        (8 + buttons % 8 + (if dx < 0 {
            16int
        } else {
            0int
        }) + (if dy < 0 {
            32int
        } else {
            0int
        })) as u8,
        (limited(dx) % 256) as u8,
        (limited(dy) % 256) as u8,
    ]
}

/// The movement that the host reads: 9 bits, of which the sign is in byte 0.
pub open spec fn movement_read(low: u8, sign: bool) -> int {
    if sign {
        low - 256
    } else {
        low as int
    }
}

/// The host reads the limited movement and the buttons that were sent.
pub proof fn law_host_reads_packet(dx: i16, dy: i16, buttons: u8)
    ensures
        ({
            let p = packet_for(dx, dy, buttons);
            &&& p.len() == 3
            &&& p[0] % 8 == buttons % 8
            &&& p[0] / 8 % 2 == 1
            &&& movement_read(p[1], p[0] / 16 % 2 == 1) == limited(dx)
            &&& movement_read(p[2], p[0] / 32 % 2 == 1) == limited(dy)
            &&& p[0] / 64 == 0
        }),
{
}

/// Whatever packet comes of a movement, the host reads that very movement from it as
/// long as it lies between -256 and 255, and the nearest of these two beyond. The ninth
/// bit of a movement counts -256. Bit 3 is always set, the overflow bits never, and the
/// buttons are the low three bits that were handed in.
pub proof fn law_packet_tells_movement(dx: i16, dy: i16, buttons: u8, sent: [u8; 3])
    requires
        call_ensures(pack_packet, (dx, dy, buttons), sent),
    ensures
        ({
            let x = sent@[1] - 256 * (sent@[0] / 16 % 2);
            let y = sent@[2] - 256 * (sent@[0] / 32 % 2);
            &&& -256 <= dx <= 255 ==> x == dx
            &&& dx < -256 ==> x == -256
            &&& dx > 255 ==> x == 255
            &&& -256 <= dy <= 255 ==> y == dy
            &&& dy < -256 ==> y == -256
            &&& dy > 255 ==> y == 255
            &&& sent@[0] % 8 == buttons % 8
            &&& sent@[0] / 8 % 2 == 1
            &&& sent@[0] < 64
        }),
{
}

/// Limits a movement to 9 bits.
fn limit(d: i16) -> (r: i16)
    ensures
        r == limited(d),
        -256 <= r <= 255,
        r < 0 <==> d < 0,
{
    if d < -256 {
        -256
    } else if d > 255 {
        255
    } else {
        d
    }
}

/// The low 8 bits of a movement.
fn low_byte(d: i16) -> (r: u8)
    requires
        -256 <= d <= 255,
    ensures
        r == d as int % 256,
{
    if d < 0 {
        (d + 256) as u8
    } else {
        d as u8
    }
}

proof fn lemma_buttons(buttons: u8)
    by (bit_vector)
    ensures
        buttons & 0x07u8 == buttons % 8,
{
}

/// The packet for a movement with the given buttons held.
pub fn pack_packet(dx: i16, dy: i16, buttons: u8) -> (r: [u8; 3])
    ensures
        r@ == packet_for(dx, dy, buttons),
{
    let dx9: i16 = limit(dx);
    let dy9: i16 = limit(dy);
    let x_sign: u8 = if dx9 < 0 {
        16
    } else {
        0
    };
    let y_sign: u8 = if dy9 < 0 {
        32
    } else {
        0
    };
    proof {
        lemma_buttons(buttons);
    }
    let byte0: u8 = 8 + (buttons & 0x07) + x_sign + y_sign;
    [byte0, low_byte(dx9), low_byte(dy9)]
}

/// Which buttons are held.
pub open spec fn buttons_after(buttons: u8, cmd: MouseCmd) -> u8 {
    match cmd {
        MouseCmd::Move { .. } => buttons,
        MouseCmd::Button { btn, down } => if down {
            buttons | mask_of(btn)
        } else {
            buttons & !mask_of(btn)
        },
    }
}

/// Whether a button is held.
pub open spec fn is_held(buttons: u8, btn: MouseBtn) -> bool {
    buttons & mask_of(btn) != 0
}

/// A button stays as it was last pressed or released. Other buttons and movements
/// do not matter.
pub proof fn law_buttons_are_sticky(buttons: u8, cmd: MouseCmd, btn: MouseBtn)
    ensures
        is_held(buttons_after(buttons, cmd), btn) == match cmd {
            MouseCmd::Button { btn: moved, down } => if moved == btn {
                down
            } else {
                is_held(buttons, btn)
            },
            MouseCmd::Move { .. } => is_held(buttons, btn),
        },
{
    if let MouseCmd::Button { btn: moved, .. } = cmd {
        lemma_masks(buttons, mask_of(moved), mask_of(btn));
    }
}

proof fn lemma_masks(buttons: u8, moved: u8, other: u8)
    by (bit_vector)
    requires
        moved == 1u8 || moved == 2u8 || moved == 4u8,
        other == 1u8 || other == 2u8 || other == 4u8,
    ensures
        ((buttons | moved) & other != 0u8) == (moved == other || buttons & other != 0u8),
        ((buttons & !moved) & other != 0u8) == (moved != other && buttons & other != 0u8),
{
}

/// The mouse: the buttons that are held.
#[derive(Debug, Clone, Copy, PartialEq, Eq, Structural)]
pub struct MouseState {
    /// Bit 0 is the left button, bit 1 the right, bit 2 the middle.
    pub buttons: u8,
}

impl MouseState {
    /// No button held.
    pub fn new() -> (r: Self)
        ensures
            r.buttons == 0,
    {
        MouseState { buttons: 0 }
    }

    /// Takes a command and returns the packet to send. A movement is sent with the
    /// buttons that are held; a button is sent without movement.
    pub fn handle(&mut self, cmd: MouseCmd) -> (r: [u8; 3])
        ensures
            final(self).buttons == buttons_after(old(self).buttons, cmd),
            r@ == match cmd {
                MouseCmd::Move { dx, dy } => packet_for(dx, dy, old(self).buttons),
                MouseCmd::Button { .. } => packet_for(0, 0, final(self).buttons),
            },
            r@[0] % 8 == final(self).buttons % 8,
            cmd matches MouseCmd::Move { dx, dy } ==> {
                &&& final(self).buttons == old(self).buttons
                &&& -256 <= dx <= 255 ==> r@[1] - 256 * (r@[0] / 16 % 2) == dx
                &&& -256 <= dy <= 255 ==> r@[2] - 256 * (r@[0] / 32 % 2) == dy
            },
            cmd is Button ==> r@[1] == 0 && r@[2] == 0 && r@[0] < 16,
    {
        match cmd {
            MouseCmd::Move { dx, dy } => pack_packet(dx, dy, self.buttons),
            MouseCmd::Button { btn, down } => {
                let mask: u8 = btn.mask();
                self.buttons = if down {
                    self.buttons | mask
                } else {
                    self.buttons & !mask
                };
                pack_packet(0, 0, self.buttons)
            },
        }
    }
}

impl Default for MouseState {
    fn default() -> (r: Self)
        ensures
            r.buttons == 0,
    {
        Self::new()
    }
}

/// The buttons have their bits: left 1, right 2, middle 4. Pressing one sets its bit and
/// releasing it clears it, and all other bits stay.
pub proof fn law_buttons_have_their_bits(buttons: u8, btn: MouseBtn, down: bool, mask: u8)
    requires
        call_ensures(MouseBtn::mask, (btn,), mask),
    ensures
        btn == MouseBtn::Left ==> mask == 1,
        btn == MouseBtn::Right ==> mask == 2,
        btn == MouseBtn::Middle ==> mask == 4,
        ({
            let after = buttons_after(buttons, MouseCmd::Button { btn, down });
            after == buttons + (if down && buttons & mask == 0 {
                mask as int
            } else if !down && buttons & mask != 0 {
                -mask
            } else {
                0int
            })
        }),
        forall|dx: i16, dy: i16|
            #[trigger] buttons_after(buttons, MouseCmd::Move { dx, dy }) == buttons,
{
    lemma_one_bit(buttons, mask);
}

proof fn lemma_one_bit(buttons: u8, mask: u8)
    by (bit_vector)
    requires
        mask == 1u8 || mask == 2u8 || mask == 4u8,
    ensures
        buttons & mask == 0u8 ==> buttons | mask == buttons + mask && buttons & !mask == buttons,
        buttons & mask != 0u8 ==> buttons | mask == buttons && buttons & !mask == buttons - mask,
{
}

/// A command is answered with one packet. A movement is read from it as far as nine bits
/// go, with the buttons as they are. A button comes without movement, and only its own bit
/// changes, to what was done with it.
pub proof fn law_command_makes_packet(m: &mut MouseState, cmd: MouseCmd, sent: [u8; 3])
    requires
        call_ensures(MouseState::handle, (m, cmd), sent),
    ensures
        ({
            let x = sent@[1] - 256 * (sent@[0] / 16 % 2);
            let y = sent@[2] - 256 * (sent@[0] / 32 % 2);
            let before = old(m).buttons;
            let after = final(m).buttons;
            &&& sent@[0] % 8 == after % 8 && sent@[0] / 8 % 2 == 1 && sent@[0] < 64
            &&& cmd matches MouseCmd::Move { dx, dy } ==> {
                &&& after == before
                &&& -256 <= dx <= 255 ==> x == dx
                &&& dx < -256 ==> x == -256
                &&& dx > 255 ==> x == 255
                &&& -256 <= dy <= 255 ==> y == dy
                &&& dy < -256 ==> y == -256
                &&& dy > 255 ==> y == 255
            }
            &&& cmd matches MouseCmd::Button { btn, down } ==> {
                &&& x == 0 && y == 0
                &&& btn == MouseBtn::Left && down ==> after == before | 1
                &&& btn == MouseBtn::Left && !down ==> after == before & !1
                &&& btn == MouseBtn::Right && down ==> after == before | 2
                &&& btn == MouseBtn::Right && !down ==> after == before & !2
                &&& btn == MouseBtn::Middle && down ==> after == before | 4
                &&& btn == MouseBtn::Middle && !down ==> after == before & !4
            }
        }),
{
}

/// No button is held at the start.
pub proof fn law_no_button_at_start(m: MouseState)
    requires
        call_ensures(MouseState::new, (), m),
    ensures
        m.buttons == 0,
{
}

/// By default it starts as a new one does.
pub proof fn law_mouse_state_by_default(d: MouseState)
    requires
        call_ensures(MouseState::default, (), d),
    ensures
        d.buttons == 0,
{
}

/// The bytes of a packet are 5 ms apart.
pub proof fn law_bytes_are_apart()
    ensures
        BYTE_GAP_MS == 5,
{
}

} // verus!
