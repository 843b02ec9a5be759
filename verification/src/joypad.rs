//! Joypad input.
//!
//! P1 register (0xFF00):
//! - bits 7-6: unused (read as 1)
//! - bit 5: P15, select action buttons (0 = selected)
//! - bit 4: P14, select direction buttons (0 = selected)
//! - bit 3: P13, Down or Start (0 = pressed)
//! - bit 2: P12, Up or Select (0 = pressed)
//! - bit 1: P11, Left or B (0 = pressed)
//! - bit 0: P10, Right or A (0 = pressed)
use vstd::prelude::*;

verus! {

#[derive(Debug, Clone, Copy, PartialEq, Eq, Structural)]
pub enum Button {
    Right,
    Left,
    Up,
    Down,
    A,
    B,
    Select,
    Start,
}

impl Button {
    /// The button numbered `index` by front ends: Right, Left, Up, Down, A,
    /// B, Select, Start for 0-7.
    pub open spec fn spec_from_index(index: u8) -> Option<Button> {
        if index == 0 {
            Some(Button::Right)
        } else if index == 1 {
            Some(Button::Left)
        } else if index == 2 {
            Some(Button::Up)
        } else if index == 3 {
            Some(Button::Down)
        } else if index == 4 {
            Some(Button::A)
        } else if index == 5 {
            Some(Button::B)
        } else if index == 6 {
            Some(Button::Select)
        } else if index == 7 {
            Some(Button::Start)
        } else {
            None
        }
    }

    /// The button numbered `index`; `None` beyond 7.
    pub fn from_index(index: u8) -> (r: Option<Button>)
        ensures
            r == Self::spec_from_index(index),
    {
        match index {
            0 => Some(Button::Right),
            1 => Some(Button::Left),
            2 => Some(Button::Up),
            3 => Some(Button::Down),
            4 => Some(Button::A),
            5 => Some(Button::B),
            6 => Some(Button::Select),
            7 => Some(Button::Start),
            _ => None,
        }
    }
}

pub struct Joypad {
    select_action: bool,
    select_direction: bool,
    right: bool,
    left: bool,
    up: bool,
    down: bool,
    a: bool,
    b: bool,
    select: bool,
    start: bool,
}

/// The abstract state of the joypad: which group is selected and which
/// buttons are held.
pub struct JoypadModel {
    pub select_action: bool,
    pub select_direction: bool,
    pub right: bool,
    pub left: bool,
    pub up: bool,
    pub down: bool,
    pub a: bool,
    pub b: bool,
    pub select: bool,
    pub start: bool,
}

impl View for Joypad {
    type V = JoypadModel;

    closed spec fn view(&self) -> JoypadModel {
        JoypadModel {
            select_action: self.select_action,
            select_direction: self.select_direction,
            right: self.right,
            left: self.left,
            up: self.up,
            down: self.down,
            a: self.a,
            b: self.b,
            select: self.select,
            start: self.start,
        }
    }
}

impl JoypadModel {
    /// Both groups selected, no button held.
    pub open spec fn initial() -> JoypadModel {
        JoypadModel {
            select_action: true,
            select_direction: true,
            right: false,
            left: false,
            up: false,
            down: false,
            a: false,
            b: false,
            select: false,
            start: false,
        }
    }

    /// Whether `button` is held.
    pub open spec fn held(self, button: Button) -> bool {
        match button {
            Button::Right => self.right,
            Button::Left => self.left,
            Button::Up => self.up,
            Button::Down => self.down,
            Button::A => self.a,
            Button::B => self.b,
            Button::Select => self.select,
            Button::Start => self.start,
        }
    }

    /// The state with `button` held or released.
    pub open spec fn with_button(self, button: Button, held: bool) -> JoypadModel {
        match button {
            Button::Right => JoypadModel { right: held, ..self },
            Button::Left => JoypadModel { left: held, ..self },
            Button::Up => JoypadModel { up: held, ..self },
            Button::Down => JoypadModel { down: held, ..self },
            Button::A => JoypadModel { a: held, ..self },
            Button::B => JoypadModel { b: held, ..self },
            Button::Select => JoypadModel { select: held, ..self },
            Button::Start => JoypadModel { start: held, ..self },
        }
    }

    /// Bit `bit` of P1 reads 0: a held button of a selected group sits there.
    pub open spec fn line_low(self, bit: int) -> bool {
        ||| self.select_direction && (if bit == 3 {
            self.down
        } else if bit == 2 {
            self.up
        } else if bit == 1 {
            self.left
        } else {
            self.right
        })
        ||| self.select_action && (if bit == 3 {
            self.start
        } else if bit == 2 {
            self.select
        } else if bit == 1 {
            self.b
        } else {
            self.a
        })
    }

    /// The value read from P1.
    pub open spec fn p1(self) -> u8 {
        (0xC0 + (if self.select_direction {
            0int
        } else {
            0x10
        }) + (if self.select_action {
            0int
        } else {
            0x20
        }) + (if self.line_low(3) {
            0int
        } else {
            8
        }) + (if self.line_low(2) {
            0int
        } else {
            4
        }) + (if self.line_low(1) {
            0int
        } else {
            2
        }) + (if self.line_low(0) {
            0int
        } else {
            1
        })) as u8
    }
}

impl Button {
    /// Whether the button is in the direction group (Right, Left, Up, Down).
    pub open spec fn is_direction(self) -> bool {
        self == Button::Right || self == Button::Left || self == Button::Up || self == Button::Down
    }

    /// The P1 bit of the button: Right and A bit 0, Left and B bit 1, Up and
    /// Select bit 2, Down and Start bit 3.
    pub open spec fn bit(self) -> int {
        match self {
            Button::Right | Button::A => 0,
            Button::Left | Button::B => 1,
            Button::Up | Button::Select => 2,
            Button::Down | Button::Start => 3,
        }
    }
}

/// Releasing a button that was just pressed restores the joypad.
pub proof fn law_release_undoes_press(m: JoypadModel, button: Button)
    requires
        !m.held(button),
    ensures
        m.with_button(button, true).with_button(button, false) == m,
{
}

/// A held button of a selected group reads as 0 on its P1 bit.
pub proof fn law_pressed_reads_low(m: JoypadModel, button: Button)
    requires
        if button.is_direction() {
            m.select_direction
        } else {
            m.select_action
        },
    ensures
        m.with_button(button, true).line_low(button.bit()),
{
}

/// With no group selected, the button bits of P1 all read 1 whatever is
/// held.
pub proof fn law_unselected_reads_high(m: JoypadModel)
    requires
        !m.select_direction,
        !m.select_action,
    ensures
        m.p1() == 0xFF,
{
}

impl Joypad {
    /// Both groups selected, no button held.
    pub fn new() -> (r: Self)
        ensures
            r@ == JoypadModel::initial(),
    {
        Self {
            select_action: true,
            select_direction: true,
            right: false,
            left: false,
            up: false,
            down: false,
            a: false,
            b: false,
            select: false,
            start: false,
        }
    }

    pub fn press(&mut self, button: Button)
        ensures
            final(self)@ == old(self)@.with_button(button, true),
    {
        match button {
            Button::Right => self.right = true,
            Button::Left => self.left = true,
            Button::Up => self.up = true,
            Button::Down => self.down = true,
            Button::A => self.a = true,
            Button::B => self.b = true,
            Button::Select => self.select = true,
            Button::Start => self.start = true,
        }
    }

    pub fn release(&mut self, button: Button)
        ensures
            final(self)@ == old(self)@.with_button(button, false),
    {
        match button {
            Button::Right => self.right = false,
            Button::Left => self.left = false,
            Button::Up => self.up = false,
            Button::Down => self.down = false,
            Button::A => self.a = false,
            Button::B => self.b = false,
            Button::Select => self.select = false,
            Button::Start => self.start = false,
        }
    }

    /// The value of P1: unused bits 7-6 set, selection bits 5-4 (0 =
    /// selected), and bits 3-0 cleared for held buttons of selected groups.
    pub fn read(&self) -> (r: u8)
        ensures
            r == self@.p1(),
    {
        let direction: u8 = if self.select_direction {
            0
        } else {
            0x10
        };
        let action: u8 = if self.select_action {
            0
        } else {
            0x20
        };
        let p13: u8 = if (self.select_direction && self.down) || (self.select_action && self.start) {
            0
        } else {
            0x08
        };
        let p12: u8 = if (self.select_direction && self.up) || (self.select_action && self.select) {
            0
        } else {
            0x04
        };
        let p11: u8 = if (self.select_direction && self.left) || (self.select_action && self.b) {
            0
        } else {
            0x02
        };
        let p10: u8 = if (self.select_direction && self.right) || (self.select_action && self.a) {
            0
        } else {
            0x01
        };
        let value: u8 = 0xC0 | action | direction | p13 | p12 | p11 | p10;
        proof {
            lemma_disjoint_bits(action, direction, p13, p12, p11, p10);
        }
        value
    }

    /// Write P1: only the selection bits 5-4 are writable (0 = selected).
    pub fn write(&mut self, value: u8)
        ensures
            final(self)@ == (JoypadModel {
                select_action: value & 0x20 == 0,
                select_direction: value & 0x10 == 0,
                ..old(self)@
            }),
    {
        self.select_action = (value & 0x20) == 0;
        self.select_direction = (value & 0x10) == 0;
    }
}

/// OR-ing the six distinct P1 bits onto the unused high bits adds them.
proof fn lemma_disjoint_bits(action: u8, direction: u8, p13: u8, p12: u8, p11: u8, p10: u8)
    by (bit_vector)
    requires
        action == 0 || action == 0x20,
        direction == 0 || direction == 0x10,
        p13 == 0 || p13 == 0x08,
        p12 == 0 || p12 == 0x04,
        p11 == 0 || p11 == 0x02,
        p10 == 0 || p10 == 0x01,
    ensures
        0xC0u8 | action | direction | p13 | p12 | p11 | p10 == (0xC0 + direction + action + p13
            + p12 + p11 + p10) as u8,
{
}

impl Default for Joypad {
    fn default() -> (r: Self)
        ensures
            r@ == JoypadModel::initial(),
    {
        Self::new()
    }
}

} // verus!
