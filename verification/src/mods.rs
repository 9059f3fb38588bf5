use vstd::prelude::*;

verus! {

/// A set of key modifiers, one bit each: Ctrl, Alt and Shift.
#[derive(Debug, Clone, Copy, PartialEq, Eq, Hash, Default, Structural)]
pub struct Mods(pub u8);

/// The modifiers that a terminal reports with a key or mouse event.
#[derive(Debug, Clone, Copy, PartialEq, Eq, Hash, Default, Structural)]
pub struct EventModifiers {
    pub shift: bool,
    pub control: bool,
    pub alt: bool,
    /// Any other modifier (super, hyper, meta).
    pub other: bool,
}

impl Mods {
    /// No modifier.
    pub fn none() -> (r: Mods)
        ensures
            r.0 == 0,
    {
        Mods(0)
    }

    /// The Ctrl modifier.
    pub fn ctrl() -> (r: Mods)
        ensures
            r.0 == 1,
    {
        Mods(1)
    }

    /// The Alt modifier.
    pub fn alt() -> (r: Mods)
        ensures
            r.0 == 2,
    {
        Mods(2)
    }

    /// The Shift modifier.
    pub fn shift() -> (r: Mods)
        ensures
            r.0 == 4,
    {
        Mods(4)
    }

    pub open spec fn bits(self) -> u8 {
        self.0
    }

    /// `self` holds every modifier of `other`.
    pub open spec fn contains_spec(self, other: Mods) -> bool {
        self.0 & other.0 == other.0
    }

    pub fn contains(self, other: Mods) -> (r: bool)
        ensures
            r == self.contains_spec(other),
    {
        (self.0 & other.0) == other.0
    }

    pub fn remove(&mut self, other: Mods)
        ensures
            final(self).0 == old(self).0 & !other.0,
    {
        self.0 = self.0 & !other.0;
    }

    pub fn is_empty(self) -> (r: bool)
        ensures
            r == (self.0 == 0),
    {
        self.0 == 0
    }

    pub fn bitor(self, rhs: Mods) -> (r: Mods)
        ensures
            r.0 == self.0 | rhs.0,
    {
        Mods(self.0 | rhs.0)
    }

    pub fn bitor_assign(&mut self, rhs: Mods)
        ensures
            final(self).0 == old(self).0 | rhs.0,
    {
        self.0 = self.0 | rhs.0;
    }

    /// The modifiers of an event, or `None` where it holds one that keys cannot name.
    pub open spec fn from_modifiers_spec(m: EventModifiers) -> Option<Mods> {
        if m.other {
            None
        } else {
            Some(Mods(
                ((if m.control { 1u8 } else { 0u8 }) | (if m.alt { 2u8 } else { 0u8 })) | (if m.shift { 4u8 } else { 0u8 }),
            ))
        }
    }

    pub fn from_modifiers(modifiers: EventModifiers) -> (r: Option<Mods>)
        ensures
            r == Self::from_modifiers_spec(modifiers),
    {
        if modifiers.other {
            return None;
        }
        let c: u8 = if modifiers.control { 1u8 } else { 0u8 };
        let a: u8 = if modifiers.alt { 2u8 } else { 0u8 };
        let s: u8 = if modifiers.shift { 4u8 } else { 0u8 };
        let mut key_mods = Mods::none();
        key_mods.bitor_assign(Mods(c));
        key_mods.bitor_assign(Mods(a));
        key_mods.bitor_assign(Mods(s));
        assert(((0u8 | c) | a) | s == (c | a) | s) by (bit_vector);
        Some(key_mods)
    }
}

} // verus!
