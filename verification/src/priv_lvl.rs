//! Privilege levels: a total order, each level with its number.

use vstd::prelude::*;

verus! {

/// A privilege level. The levels are listed from the lowest to the highest.
#[allow(non_camel_case_types)]
#[derive(Clone, Copy, Debug, PartialEq, Eq, Structural, PartialOrd, Ord)]
pub enum PrivLvl {
    NORMAL_LVL,
    MODE1_LVL,
    MODE2_LVL,
    MODE3_LVL,
    SECUR_LVL,
    DEVEL_LVL,
    UNDEF_LVL,
}

impl PrivLvl {
    /// The number of the level.
    pub open spec fn spec_level(self) -> u8 {
        match self {
            PrivLvl::NORMAL_LVL => 0,
            PrivLvl::MODE1_LVL => 1,
            PrivLvl::MODE2_LVL => 2,
            PrivLvl::MODE3_LVL => 3,
            PrivLvl::SECUR_LVL => 100,
            PrivLvl::DEVEL_LVL => 254,
            PrivLvl::UNDEF_LVL => 255,
        }
    }

    /// The level with a given number, if there is one.
    pub open spec fn spec_from_level(n: u8) -> Option<PrivLvl> {
        match n {
            0 => Some(PrivLvl::NORMAL_LVL),
            1 => Some(PrivLvl::MODE1_LVL),
            2 => Some(PrivLvl::MODE2_LVL),
            3 => Some(PrivLvl::MODE3_LVL),
            100 => Some(PrivLvl::SECUR_LVL),
            254 => Some(PrivLvl::DEVEL_LVL),
            255 => Some(PrivLvl::UNDEF_LVL),
            _ => None,
        }
    }

    /// Whether this level is at least `required`.
    pub open spec fn spec_allows(self, required: PrivLvl) -> bool {
        self.spec_level() >= required.spec_level()
    }

    pub fn level(self) -> (r: u8)
        ensures
            r == self.spec_level(),
    {
        match self {
            PrivLvl::NORMAL_LVL => 0,
            PrivLvl::MODE1_LVL => 1,
            PrivLvl::MODE2_LVL => 2,
            PrivLvl::MODE3_LVL => 3,
            PrivLvl::SECUR_LVL => 100,
            PrivLvl::DEVEL_LVL => 254,
            PrivLvl::UNDEF_LVL => 255,
        }
    }

    pub fn from_level(n: u8) -> (r: Option<PrivLvl>)
        ensures
            r == Self::spec_from_level(n),
    {
        match n {
            0 => Some(PrivLvl::NORMAL_LVL),
            1 => Some(PrivLvl::MODE1_LVL),
            2 => Some(PrivLvl::MODE2_LVL),
            3 => Some(PrivLvl::MODE3_LVL),
            100 => Some(PrivLvl::SECUR_LVL),
            254 => Some(PrivLvl::DEVEL_LVL),
            255 => Some(PrivLvl::UNDEF_LVL),
            _ => None,
        }
    }

    /// Whether a caller at this level may do what asks for `required`.
    pub fn allows(self, required: PrivLvl) -> (r: bool)
        ensures
            r == self.spec_allows(required),
    {
        self.level() >= required.level()
    }

    /// The levels are totally ordered by their numbers, distinct levels have
    /// distinct numbers, and a level's number names that level again.
    pub proof fn lemma_total_order(a: PrivLvl, b: PrivLvl, c: PrivLvl)
        ensures
            a.spec_allows(a),
            a.spec_allows(b) || b.spec_allows(a),
            a.spec_allows(b) && b.spec_allows(a) ==> a == b,
            a.spec_allows(b) && b.spec_allows(c) ==> a.spec_allows(c),
            Self::spec_from_level(a.spec_level()) == Some(a),
            PrivLvl::UNDEF_LVL.spec_allows(a),
            a.spec_allows(PrivLvl::NORMAL_LVL),
    {
    }
}

impl TryFrom<u8> for PrivLvl {
    type Error = ();

    /// The privilege level that a byte names; an error for a byte that names none.
    fn try_from(b: u8) -> (r: Result<PrivLvl, ()>) {
        match PrivLvl::from_level(b) {
            Some(t) => Ok(t),
            None => Err(()),
        }
    }
}

impl vstd::std_specs::convert::TryFromSpecImpl<u8> for PrivLvl {
    open spec fn obeys_try_from_spec() -> bool {
        true
    }

    open spec fn try_from_spec(b: u8) -> Result<PrivLvl, ()> {
        match PrivLvl::spec_from_level(b) {
            Some(t) => Ok(t),
            None => Err(()),
        }
    }
}

impl From<PrivLvl> for u8 {
    /// The byte of the privilege level.
    fn from(t: PrivLvl) -> (r: u8) {
        t.level()
    }
}

impl vstd::std_specs::convert::FromSpecImpl<PrivLvl> for u8 {
    open spec fn obeys_from_spec() -> bool {
        true
    }

    open spec fn from_spec(t: PrivLvl) -> u8 {
        t.spec_level()
    }
}

} // verus!
