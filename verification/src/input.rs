//! The input latch: sixteen boolean key flags addressed by hex digit
//! 0 through F.  A live level-state latch, not an event queue: no
//! debouncing, no ordering.  Translating host input into this logical
//! key space is the caller's job; a canonical mapping from a QWERTY
//! block of host characters is provided for convenience.

use vstd::prelude::*;

verus! {

/// A latch with no key held down.
pub open spec fn no_keys() -> Seq<bool> {
    Seq::new(16, |i: int| false)
}

/// The sixteen logical keys of the machine's keypad.
#[derive(Clone, Copy, Debug, PartialEq, Eq, Structural)]
pub enum Button {
    One,
    Two,
    Three,
    Four,
    Five,
    Six,
    Seven,
    Eight,
    Nine,
    Zero,
    A,
    B,
    C,
    D,
    E,
    F,
}

/// The logical key code (hex digit) of a button.
pub open spec fn button_code(b: Button) -> u8 {
    match b {
        Button::Zero => 0x0,
        Button::One => 0x1,
        Button::Two => 0x2,
        Button::Three => 0x3,
        Button::Four => 0x4,
        Button::Five => 0x5,
        Button::Six => 0x6,
        Button::Seven => 0x7,
        Button::Eight => 0x8,
        Button::Nine => 0x9,
        Button::A => 0xA,
        Button::B => 0xB,
        Button::C => 0xC,
        Button::D => 0xD,
        Button::E => 0xE,
        Button::F => 0xF,
    }
}

/// The canonical host-key mapping: the `1234` / `qwer` / `asdf` /
/// `zxcv` block maps row by row onto the keypad layout
/// `1 2 3 C / 4 5 6 D / 7 8 9 E / A 0 B F`.
pub open spec fn spec_parse_key(key: char) -> Option<Button> {
    if key == '1' {
        Some(Button::One)
    } else if key == '2' {
        Some(Button::Two)
    } else if key == '3' {
        Some(Button::Three)
    } else if key == '4' {
        Some(Button::C)
    } else if key == 'q' {
        Some(Button::Four)
    } else if key == 'w' {
        Some(Button::Five)
    } else if key == 'e' {
        Some(Button::Six)
    } else if key == 'r' {
        Some(Button::D)
    } else if key == 'a' {
        Some(Button::Seven)
    } else if key == 's' {
        Some(Button::Eight)
    } else if key == 'd' {
        Some(Button::Nine)
    } else if key == 'f' {
        Some(Button::E)
    } else if key == 'z' {
        Some(Button::A)
    } else if key == 'x' {
        Some(Button::Zero)
    } else if key == 'c' {
        Some(Button::B)
    } else if key == 'v' {
        Some(Button::F)
    } else {
        None
    }
}

impl Button {
    /// The key's code in the logical key space, a hex digit.
    pub fn key_code(&self) -> (r: u8)
        ensures
            r == button_code(*self),
            r < 16,
    {
        match self {
            Button::Zero => 0x0,
            Button::One => 0x1,
            Button::Two => 0x2,
            Button::Three => 0x3,
            Button::Four => 0x4,
            Button::Five => 0x5,
            Button::Six => 0x6,
            Button::Seven => 0x7,
            Button::Eight => 0x8,
            Button::Nine => 0x9,
            Button::A => 0xA,
            Button::B => 0xB,
            Button::C => 0xC,
            Button::D => 0xD,
            Button::E => 0xE,
            Button::F => 0xF,
        }
    }

    /// The key's face label.
    pub fn to_label(&self) -> (r: &'static str)
        ensures
            r@.len() == 1,
    {
        proof {
            reveal_strlit("0");
            reveal_strlit("1");
            reveal_strlit("2");
            reveal_strlit("3");
            reveal_strlit("4");
            reveal_strlit("5");
            reveal_strlit("6");
            reveal_strlit("7");
            reveal_strlit("8");
            reveal_strlit("9");
            reveal_strlit("A");
            reveal_strlit("B");
            reveal_strlit("C");
            reveal_strlit("D");
            reveal_strlit("E");
            reveal_strlit("F");
        }
        match self {
            Button::Zero => "0",
            Button::One => "1",
            Button::Two => "2",
            Button::Three => "3",
            Button::Four => "4",
            Button::Five => "5",
            Button::Six => "6",
            Button::Seven => "7",
            Button::Eight => "8",
            Button::Nine => "9",
            Button::A => "A",
            Button::B => "B",
            Button::C => "C",
            Button::D => "D",
            Button::E => "E",
            Button::F => "F",
        }
    }
}

/// Translates a host character into a logical key, by the canonical
/// mapping.  Characters outside the block map to nothing.
pub fn parse_key(key: char) -> (r: Option<Button>)
    ensures
        r == spec_parse_key(key),
{
    match key {
        '1' => Some(Button::One),
        '2' => Some(Button::Two),
        '3' => Some(Button::Three),
        '4' => Some(Button::C),
        'q' => Some(Button::Four),
        'w' => Some(Button::Five),
        'e' => Some(Button::Six),
        'r' => Some(Button::D),
        'a' => Some(Button::Seven),
        's' => Some(Button::Eight),
        'd' => Some(Button::Nine),
        'f' => Some(Button::E),
        'z' => Some(Button::A),
        'x' => Some(Button::Zero),
        'c' => Some(Button::B),
        'v' => Some(Button::F),
        _ => None,
    }
}

/// The input latch: one flag per logical key.
pub struct Input {
    pub keypad: Vec<bool>,
}

impl Input {
    /// Well-formed: exactly one flag per key.
    pub open spec fn wf(&self) -> bool {
        self.keypad@.len() == 16
    }

    /// A latch with every key up.
    pub fn new() -> (r: Input)
        ensures
            r.wf(),
            r.keypad@ == no_keys(),
    {
        let mut keypad: Vec<bool> = Vec::new();
        let mut i: usize = 0;
        while i < 16
            invariant
                i <= 16,
                keypad@.len() == i,
                forall|j: int| 0 <= j < i ==> !keypad@[j],
            decreases 16 - i,
        {
            keypad.push(false);
            i = i + 1;
        }
        proof {
            assert(keypad@ =~= no_keys());
        }
        Input { keypad }
    }

    /// Whether the key with the given code is currently held down.
    pub fn is_pressed(&self, key: u8) -> (r: bool)
        requires
            self.wf(),
            key < 16,
        ensures
            r == self.keypad@[key as int],
    {
        self.keypad[key as usize]
    }

    /// Releases a key.
    pub fn key_up(&mut self, key: Button)
        requires
            old(self).wf(),
        ensures
            final(self).wf(),
            final(self).keypad@ == old(self).keypad@.update(button_code(key) as int, false),
    {
        let code = key.key_code();
        self.keypad.set(code as usize, false);
    }

    /// Presses a key.
    pub fn key_down(&mut self, key: Button)
        requires
            old(self).wf(),
        ensures
            final(self).wf(),
            final(self).keypad@ == old(self).keypad@.update(button_code(key) as int, true),
    {
        let code = key.key_code();
        self.keypad.set(code as usize, true);
    }
}

} // verus!
