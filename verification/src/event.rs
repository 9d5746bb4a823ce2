use vstd::prelude::*;

verus! {

/// The bit that marks a held shift key.
pub const SHIFT_BIT: u8 = 1;

/// The bit that marks a held control key.
pub const CONTROL_BIT: u8 = 2;

/// The bit that marks a held alt key.
pub const ALT_BIT: u8 = 4;

/// The bit that marks a held super (logo) key.
pub const SUPER_BIT: u8 = 8;

/// Whether the bit set `bits` shares a bit with `flag`; for a single flag
/// bit, whether that bit is set.
pub open spec fn has_flag(bits: u8, flag: u8) -> bool {
    bits & flag != 0
}

/// A set of keyboard modifiers, stored as a bit set.
#[derive(Debug, Clone, Copy, PartialEq, Eq, Structural)]
pub struct KeyboardModifiers(u8);

impl View for KeyboardModifiers {
    type V = u8;

    closed spec fn view(&self) -> u8 {
        self.0
    }
}

impl Default for KeyboardModifiers {
    fn default() -> (r: Self)
        ensures
            r@ == 0,
    {
        KeyboardModifiers(0)
    }
}

impl KeyboardModifiers {
    /// The set that holds only the shift key.
    pub fn shift_flag() -> (r: Self)
        ensures
            r@ == SHIFT_BIT,
    {
        KeyboardModifiers(SHIFT_BIT)
    }

    /// The set that holds only the control key.
    pub fn control_flag() -> (r: Self)
        ensures
            r@ == CONTROL_BIT,
    {
        KeyboardModifiers(CONTROL_BIT)
    }

    /// The set that holds only the alt key.
    pub fn alt_flag() -> (r: Self)
        ensures
            r@ == ALT_BIT,
    {
        KeyboardModifiers(ALT_BIT)
    }

    /// The set that holds only the super key.
    pub fn super_flag() -> (r: Self)
        ensures
            r@ == SUPER_BIT,
    {
        KeyboardModifiers(SUPER_BIT)
    }

    /// The empty set.
    pub fn empty() -> (r: Self)
        ensures
            r@ == 0,
    {
        KeyboardModifiers(0)
    }

    /// Whether shift is held.
    pub fn shift(self) -> (b: bool)
        ensures
            b == has_flag(self@, SHIFT_BIT),
    {
        self.0 & SHIFT_BIT != 0
    }

    /// Whether control is held.
    pub fn control(self) -> (b: bool)
        ensures
            b == has_flag(self@, CONTROL_BIT),
    {
        self.0 & CONTROL_BIT != 0
    }

    /// Whether alt is held.
    pub fn alt(self) -> (b: bool)
        ensures
            b == has_flag(self@, ALT_BIT),
    {
        self.0 & ALT_BIT != 0
    }

    /// Whether super is held.
    pub fn super_(self) -> (b: bool)
        ensures
            b == has_flag(self@, SUPER_BIT),
    {
        self.0 & SUPER_BIT != 0
    }

    /// Adds every modifier of `other` to the set.
    pub fn insert(&mut self, other: Self)
        ensures
            final(self)@ == old(self)@ | other@,
    {
        self.0 = self.0 | other.0;
    }

    /// Removes every modifier of `other` from the set.
    pub fn remove(&mut self, other: Self)
        ensures
            final(self)@ == old(self)@ & !other@,
    {
        self.0 = self.0 & !other.0;
    }
}

/// After an insertion, a single modifier bit is held exactly when it was
/// held before or is held by the inserted set.
pub proof fn lemma_insert_holds(bits: u8, other: u8, flag: u8)
    requires
        flag == SHIFT_BIT || flag == CONTROL_BIT || flag == ALT_BIT || flag == SUPER_BIT,
    ensures
        has_flag(bits | other, flag) == (has_flag(bits, flag) || has_flag(other, flag)),
{
    assert((bits | other) & flag != 0 <==> (bits & flag != 0 || other & flag != 0)) by (bit_vector)
        requires
            flag == 1u8 || flag == 2u8 || flag == 4u8 || flag == 8u8,
    ;
}

/// After a removal, a single modifier bit is held exactly when it was held
/// before and is not held by the removed set.
pub proof fn lemma_remove_clears(bits: u8, other: u8, flag: u8)
    requires
        flag == SHIFT_BIT || flag == CONTROL_BIT || flag == ALT_BIT || flag == SUPER_BIT,
    ensures
        has_flag(bits & !other, flag) == (has_flag(bits, flag) && !has_flag(other, flag)),
{
    assert((bits & !other) & flag != 0 <==> (bits & flag != 0 && other & flag == 0)) by (bit_vector)
        requires
            flag == 1u8 || flag == 2u8 || flag == 4u8 || flag == 8u8,
    ;
}

/// Inserting a set and then removing the same set leaves exactly the
/// modifiers of the first set that the second does not hold; inserting a
/// set twice is the same as inserting it once.
pub proof fn lemma_insert_remove(bits: u8, other: u8)
    ensures
        (bits | other) & !other == bits & !other,
        (bits | other) | other == bits | other,
{
    assert((bits | other) & !other == bits & !other) by (bit_vector);
    assert((bits | other) | other == bits | other) by (bit_vector);
}

/// The empty set holds no modifier.
pub proof fn lemma_empty_holds_nothing(flag: u8)
    ensures
        !has_flag(0, flag),
{
    assert(0u8 & flag == 0) by (bit_vector);
}

/// A mouse button.
#[derive(Debug, Clone, Copy, PartialEq, Eq, Hash, Structural)]
pub enum MouseButton {
    Left,
    Right,
    Middle,
    Other(u16),
}

} // verus!
