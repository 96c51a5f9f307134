use vstd::prelude::*;

verus! {

/// The key of the 16-key pad that each keyboard character stands for:
///
/// ```text
/// Q W E R      1 2 3 C
/// A S D F  ->  4 5 6 D
/// U I O P      7 8 9 E
/// J K L ;      A 0 B F
/// ```
pub open spec fn key_layout(c: char) -> Option<u8> {
    if c == 'q' {
        Some(0x1u8)
    } else if c == 'w' {
        Some(0x2u8)
    } else if c == 'e' {
        Some(0x3u8)
    } else if c == 'r' {
        Some(0xCu8)
    } else if c == 'a' {
        Some(0x4u8)
    } else if c == 's' {
        Some(0x5u8)
    } else if c == 'd' {
        Some(0x6u8)
    } else if c == 'f' {
        Some(0xDu8)
    } else if c == 'u' {
        Some(0x7u8)
    } else if c == 'i' {
        Some(0x8u8)
    } else if c == 'o' {
        Some(0x9u8)
    } else if c == 'p' {
        Some(0xEu8)
    } else if c == 'j' {
        Some(0xAu8)
    } else if c == 'k' {
        Some(0x0u8)
    } else if c == 'l' {
        Some(0xBu8)
    } else if c == ';' {
        Some(0xFu8)
    } else {
        None
    }
}

/// Every key of the 16-key pad, 0x0 to 0xF, has a character in the layout.
pub proof fn lemma_layout_covers_pad(k: u8)
    requires
        k < 0x10,
    ensures
        exists|c: char| key_layout(c) == Some(k),
{
    let chars = seq!['k', 'q', 'w', 'e', 'a', 's', 'd', 'u', 'i', 'o', 'j', 'l', 'r', 'f', 'p', ';'];
    assert(key_layout(chars[k as int]) == Some(k));
}

/// Maps a keyboard character (lower case) to the key it stands for on the
/// 16-key pad, `None` for a character outside the layout.
pub fn map_key(c: char) -> (key: Option<u8>)
    ensures
        key == key_layout(c),
        key matches Some(k) ==> k < 0x10,
        forall|d: char| #[trigger] key_layout(d) == key && key is Some ==> d == c,
{
    match c {
        'q' => Some(0x1),
        'w' => Some(0x2),
        'e' => Some(0x3),
        'r' => Some(0xC),
        'a' => Some(0x4),
        's' => Some(0x5),
        'd' => Some(0x6),
        'f' => Some(0xD),
        'u' => Some(0x7),
        'i' => Some(0x8),
        'o' => Some(0x9),
        'p' => Some(0xE),
        'j' => Some(0xA),
        'k' => Some(0x0),
        'l' => Some(0xB),
        ';' => Some(0xF),
        _ => None,
    }
}

/// The key currently held on the 16-key pad, if any.
pub struct Keyboard {
    key_pressed: Option<u8>,
}

impl View for Keyboard {
    type V = Option<u8>;

    closed spec fn view(&self) -> Option<u8> {
        self.key_pressed
    }
}

impl Keyboard {
    /// Creates a keyboard with no key held.
    pub fn new() -> (k: Keyboard)
        ensures
            k@ == None::<u8>,
    {
        Keyboard { key_pressed: None }
    }

    /// Records the key now held, or `None` when no key is.
    pub fn set_key_pressed(&mut self, key: Option<u8>)
        requires
            key matches Some(k) ==> k < 0x10,
        ensures
            final(self)@ == key,
    {
        self.key_pressed = key;
    }

    /// Returns the key held, if any.
    pub fn get_key_pressed(&self) -> (key: Option<u8>)
        ensures
            key == self@,
    {
        self.key_pressed
    }
}

} // verus!
