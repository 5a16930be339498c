//! The startup description that the launcher hands the daemon: the kinds of
//! chip it names.

use vstd::prelude::*;

verus! {

/// The kind of a chip in the startup description, with its wire value.
#[allow(non_camel_case_types)]
#[derive(Clone, Copy, PartialEq, Eq, Structural, Debug, Hash)]
pub enum Chip_ChipKind {
    UNSPECIFIED,
    BLUETOOTH,
    WIFI,
    UWB,
}

impl Chip_ChipKind {
    /// The kind's wire value.
    pub open spec fn spec_value(self) -> i32 {
        match self {
            Chip_ChipKind::UNSPECIFIED => 0,
            Chip_ChipKind::BLUETOOTH => 1,
            Chip_ChipKind::WIFI => 2,
            Chip_ChipKind::UWB => 3,
        }
    }

    /// The kind's wire value.
    pub fn value(&self) -> (r: i32)
        ensures
            r == self.spec_value(),
    {
        match self {
            Chip_ChipKind::UNSPECIFIED => 0,
            Chip_ChipKind::BLUETOOTH => 1,
            Chip_ChipKind::WIFI => 2,
            Chip_ChipKind::UWB => 3,
        }
    }

    /// The kind with the wire value, if there is one.
    pub fn from_i32(value: i32) -> (r: Option<Chip_ChipKind>)
        ensures
            match r {
                Some(k) => k.spec_value() == value,
                None => value < 0 || value > 3,
            },
    {
        if value == 0 {
            Some(Chip_ChipKind::UNSPECIFIED)
        } else if value == 1 {
            Some(Chip_ChipKind::BLUETOOTH)
        } else if value == 2 {
            Some(Chip_ChipKind::WIFI)
        } else if value == 3 {
            Some(Chip_ChipKind::UWB)
        } else {
            None
        }
    }

    /// Every kind, in the order of their wire values.
    pub fn values() -> (r: Vec<Chip_ChipKind>)
        ensures
            r@ == seq![
                Chip_ChipKind::UNSPECIFIED,
                Chip_ChipKind::BLUETOOTH,
                Chip_ChipKind::WIFI,
                Chip_ChipKind::UWB,
            ],
    {
        let r = vec![
            Chip_ChipKind::UNSPECIFIED,
            Chip_ChipKind::BLUETOOTH,
            Chip_ChipKind::WIFI,
            Chip_ChipKind::UWB,
        ];
        assert(r@ =~= seq![
            Chip_ChipKind::UNSPECIFIED,
            Chip_ChipKind::BLUETOOTH,
            Chip_ChipKind::WIFI,
            Chip_ChipKind::UWB,
        ]);
        r
    }
}

impl Default for Chip_ChipKind {
    /// The unspecified kind.
    fn default() -> (r: Chip_ChipKind)
        ensures
            r == Chip_ChipKind::UNSPECIFIED,
    {
        Chip_ChipKind::UNSPECIFIED
    }
}

} // verus!
