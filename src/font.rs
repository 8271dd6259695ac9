//! Fonts stored in the glasses.

use vstd::prelude::*;

verus! {

/// Default fonts stored in the glasses.
#[derive(Clone, Copy, Debug, PartialEq, Eq, Structural)]
pub enum DefaultFont {
    Default24,
    ComputerModernSansSerif24,
    ComputerModernSansSerif35,
    ComputerModernSansSerif49,
}

impl DefaultFont {
    /// The font id of the glasses.
    pub open spec fn spec_id(self) -> u8 {
        match self {
            DefaultFont::Default24 => 0,
            DefaultFont::ComputerModernSansSerif24 => 1,
            DefaultFont::ComputerModernSansSerif35 => 2,
            DefaultFont::ComputerModernSansSerif49 => 3,
        }
    }

    /// The font for an id; an unknown id stands for the default font.
    pub open spec fn spec_from_id(id: u8) -> DefaultFont {
        if id == 1 {
            DefaultFont::ComputerModernSansSerif24
        } else if id == 2 {
            DefaultFont::ComputerModernSansSerif35
        } else if id == 3 {
            DefaultFont::ComputerModernSansSerif49
        } else {
            DefaultFont::Default24
        }
    }
}

impl From<u8> for DefaultFont {
    fn from(id: u8) -> (r: DefaultFont) {
        match id {
            1 => DefaultFont::ComputerModernSansSerif24,
            2 => DefaultFont::ComputerModernSansSerif35,
            3 => DefaultFont::ComputerModernSansSerif49,
            _ => DefaultFont::Default24,
        }
    }
}

impl vstd::std_specs::convert::FromSpecImpl<u8> for DefaultFont {
    open spec fn obeys_from_spec() -> bool {
        true
    }

    open spec fn from_spec(id: u8) -> DefaultFont {
        DefaultFont::spec_from_id(id)
    }
}

impl From<DefaultFont> for u8 {
    fn from(f: DefaultFont) -> (r: u8) {
        match f {
            DefaultFont::Default24 => 0,
            DefaultFont::ComputerModernSansSerif24 => 1,
            DefaultFont::ComputerModernSansSerif35 => 2,
            DefaultFont::ComputerModernSansSerif49 => 3,
        }
    }
}

impl vstd::std_specs::convert::FromSpecImpl<DefaultFont> for u8 {
    open spec fn obeys_from_spec() -> bool {
        true
    }

    open spec fn from_spec(f: DefaultFont) -> u8 {
        f.spec_id()
    }
}

} // verus!
