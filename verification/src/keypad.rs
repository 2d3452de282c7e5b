use vstd::prelude::*;

verus! {

/// Number of keys on the pad.
pub const KEY_COUNT: usize = 16;

/// The sixteen buttons, named by their legend and listed row by row as they
/// sit on the pad: `1 2 3 C`, `4 5 6 D`, `7 8 9 E`, `A 0 B F`.
#[derive(Debug, Clone, Copy, PartialEq, Eq, Structural)]
pub enum ButtonCode {
    B1,
    B2,
    B3,
    BC,
    B4,
    B5,
    B6,
    BD,
    B7,
    B8,
    B9,
    BE,
    BA,
    B0,
    BB,
    BF,
}

impl ButtonCode {
    /// Position of the button on the pad, counted row by row from the top left.
    pub open spec fn spec_index(self) -> int {
        match self {
            ButtonCode::B1 => 0,
            ButtonCode::B2 => 1,
            ButtonCode::B3 => 2,
            ButtonCode::BC => 3,
            ButtonCode::B4 => 4,
            ButtonCode::B5 => 5,
            ButtonCode::B6 => 6,
            ButtonCode::BD => 7,
            ButtonCode::B7 => 8,
            ButtonCode::B8 => 9,
            ButtonCode::B9 => 10,
            ButtonCode::BE => 11,
            ButtonCode::BA => 12,
            ButtonCode::B0 => 13,
            ButtonCode::BB => 14,
            ButtonCode::BF => 15,
        }
    }

    /// The key index under which the button's state is kept.
    pub fn index(self) -> (idx: u8)
        ensures
            idx == self.spec_index(),
            idx < KEY_COUNT,
    {
        match self {
            ButtonCode::B1 => 0,
            ButtonCode::B2 => 1,
            ButtonCode::B3 => 2,
            ButtonCode::BC => 3,
            ButtonCode::B4 => 4,
            ButtonCode::B5 => 5,
            ButtonCode::B6 => 6,
            ButtonCode::BD => 7,
            ButtonCode::B7 => 8,
            ButtonCode::B8 => 9,
            ButtonCode::B9 => 10,
            ButtonCode::BE => 11,
            ButtonCode::BA => 12,
            ButtonCode::B0 => 13,
            ButtonCode::BB => 14,
            ButtonCode::BF => 15,
        }
    }
}

/// Pressed/released state of the sixteen keys.
pub struct Keypad {
    pressed: [bool; 16],
}

impl View for Keypad {
    type V = Seq<bool>;

    /// One flag per key index, `true` while the key is held down.
    closed spec fn view(&self) -> Seq<bool> {
        self.pressed@
    }
}

impl Keypad {
    /// A keypad with every key released.
    pub fn new() -> (pad: Self)
        ensures
            pad@ =~= Seq::new(KEY_COUNT as nat, |k: int| false),
    {
        Self { pressed: [false;16] }
    }

    /// Every keypad holds exactly `KEY_COUNT` key states.
    pub broadcast proof fn lemma_len(&self)
        ensures
            #![trigger self@]
            self@.len() == KEY_COUNT,
    {
    }

    /// Records that `button_code` is now pressed or released.
    pub fn set_pressed(&mut self, button_code: ButtonCode, pressed: bool)
        ensures
            final(self)@ == old(self)@.update(button_code.spec_index(), pressed),
    {
        let idx: u8 = button_code.index();
        self.pressed[idx as usize] = pressed;
    }

    /// Whether `button_code` is currently pressed.
    pub fn is_pressed_code(&self, button_code: ButtonCode) -> (pressed: bool)
        ensures
            pressed == self@[button_code.spec_index()],
    {
        let idx: u8 = button_code.index();
        self.pressed[idx as usize]
    }

    /// Whether the key with index `idx` is currently pressed.
    pub fn is_pressed_idx(&self, idx: u8) -> (pressed: bool)
        requires
            idx < KEY_COUNT,
        ensures
            pressed == self@[idx as int],
    {
        self.pressed[idx as usize]
    }
}

} // verus!
