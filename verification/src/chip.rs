//! The chip registry: every chip that a device brings gets an identifier,
//! counted up from a starting value, and is kept under it.
//!
//! A chip is served by an emulated chip, whose handle `E` the registry
//! carries; the handle is set once the emulated chip exists.

use crate::response::ChipKind;
use crate::text::{decimal, lemma_decimal_nonempty, push_decimal, push_str};
use crate::timers::instant_now;
use std::collections::HashMap;
use std::time::Instant;
use vstd::prelude::*;

verus! {

broadcast use vstd::std_specs::hash::group_hash_axioms;

/// The first identifier that the daemon's registry hands out.
pub const INITIAL_CHIP_ID: u32 = 1000;

/// What a new chip is made from.
#[derive(Debug)]
pub struct CreateParams {
    pub kind: ChipKind,
    pub address: String,
    /// The chip's name; a name is made up from the identifier where none
    /// is given.
    pub name: Option<String>,
    pub manufacturer: String,
    pub product_name: String,
}

/// A chip of a device.
pub struct Chip<E> {
    pub id: u32,
    pub device_id: u32,
    /// The handle of the emulated chip that serves it, once there is one.
    pub emulated_chip: Option<E>,
    pub kind: ChipKind,
    pub address: String,
    pub name: String,
    pub device_name: String,
    pub manufacturer: String,
    pub product_name: String,
    /// When the chip was made.
    pub start: Instant,
}

/// The name of a chip that was given none: `chip-` and its identifier.
pub open spec fn default_chip_name(id: u32) -> Seq<char> {
    "chip-"@ + decimal(id as nat)
}

/// The error of an operation on a chip that has no emulated chip yet.
pub open spec fn no_emulated_chip_message(id: u32) -> Seq<char> {
    "EmulatedChip hasn't been instantiated yet for chip_id "@ + decimal(id as nat)
}

/// The error of a lookup of an identifier that names no chip.
pub open spec fn missing_chip_message(id: u32) -> Seq<char> {
    "CHIPS does not contains key "@ + decimal(id as nat)
}

/// The value of a patched text field: the patch's value where it is not
/// empty, else the old one.
pub open spec fn patched_text(old: Seq<char>, patch: Seq<char>) -> Seq<char> {
    if patch.len() == 0 {
        old
    } else {
        patch
    }
}

impl<E> Chip<E> {
    /// The chip made with identifier `id` for a device from `params`: no
    /// emulated chip yet, the parameters' fields, and the given name or
    /// else the default one.
    pub open spec fn made_from(
        self,
        id: u32,
        device_id: u32,
        device_name: Seq<char>,
        params: CreateParams,
    ) -> bool {
        &&& self.id == id
        &&& self.device_id == device_id
        &&& self.emulated_chip is None
        &&& self.kind == params.kind
        &&& self.address@ == params.address@
        &&& self.name@ == match params.name {
            Some(n) => n@,
            None => default_chip_name(id),
        }
        &&& self.device_name@ == device_name
        &&& self.manufacturer@ == params.manufacturer@
        &&& self.product_name@ == params.product_name@
    }

    /// The fields of two chips other than the emulated chip agree.
    pub open spec fn same_fields(self, other: Chip<E>) -> bool {
        &&& self.id == other.id
        &&& self.device_id == other.device_id
        &&& self.kind == other.kind
        &&& self.address == other.address
        &&& self.name == other.name
        &&& self.device_name == other.device_name
        &&& self.manufacturer == other.manufacturer
        &&& self.product_name == other.product_name
        &&& self.start == other.start
    }

    /// Makes the chip with identifier `id` (see `made_from`).
    pub fn new(id: u32, device_id: u32, device_name: &str, create_params: &CreateParams) -> (r:
        Self)
        ensures
            r.made_from(id, device_id, device_name@, *create_params),
    {
        let name = match &create_params.name {
            Some(n) => n.clone(),
            None => {
                let mut s = String::new();
                push_str(&mut s, "chip-");
                proof {
                    lemma_decimal_nonempty(id as nat);
                }
                push_decimal(&mut s, id as u64, 0);
                assert(s@ =~= default_chip_name(id));
                s
            },
        };
        let mut device = String::new();
        push_str(&mut device, device_name);
        assert(device@ =~= device_name@);
        Chip {
            id,
            device_id,
            emulated_chip: None,
            kind: create_params.kind,
            address: create_params.address.clone(),
            name,
            device_name: device,
            manufacturer: create_params.manufacturer.clone(),
            product_name: create_params.product_name.clone(),
            start: instant_now(),
        }
    }

    /// The error for an operation that needs the emulated chip.
    fn no_emulated_chip(&self) -> (r: String)
        ensures
            r@ == no_emulated_chip_message(self.id),
    {
        let mut s = String::new();
        push_str(&mut s, "EmulatedChip hasn't been instantiated yet for chip_id ");
        proof {
            lemma_decimal_nonempty(self.id as nat);
        }
        push_decimal(&mut s, self.id as u64, 0);
        assert(s@ =~= no_emulated_chip_message(self.id));
        s
    }

}

/// What the registry asks of the emulated chip that serves a chip: to take
/// the radio part of a patch, and to reset.
pub trait EmulatedChip: Sized {
    /// The part of a patch that the emulated chip takes.
    type Patch;
    /// What the emulated chip reports of a patch.
    type Outcome;

    /// The emulated chip after a patch, and what it reports.
    spec fn patched(&self, patch: Self::Patch) -> (Self, Self::Outcome);

    /// The emulated chip after a reset.
    spec fn after_reset(&self) -> Self;

    /// Applies a patch (see `patched`).
    fn patch(&mut self, patch: &Self::Patch) -> (r: Self::Outcome)
        ensures
            (*final(self), r) == old(self).patched(*patch),
    ;

    /// Resets the emulated chip (see `after_reset`).
    fn reset(&mut self)
        ensures
            *final(self) == old(self).after_reset(),
    ;
}

impl<E: EmulatedChip> Chip<E> {
    /// Takes the manufacturer and the product name of a patch, where they
    /// are not empty, then has the emulated chip take the rest of it; fails
    /// when the chip has no emulated chip yet, the two fields taken all the
    /// same.
    pub fn patch(&mut self, manufacturer: &str, product_name: &str, patch: &E::Patch) -> (r: Result<
        E::Outcome,
        String,
    >)
        ensures
            final(self).manufacturer@ == patched_text(old(self).manufacturer@, manufacturer@),
            final(self).product_name@ == patched_text(old(self).product_name@, product_name@),
            final(self).id == old(self).id,
            final(self).device_id == old(self).device_id,
            final(self).kind == old(self).kind,
            final(self).address == old(self).address,
            final(self).name == old(self).name,
            final(self).device_name == old(self).device_name,
            final(self).start == old(self).start,
            match old(self).emulated_chip {
                Some(e) => (r matches Ok(o) && o == e.patched(*patch).1) && final(self).emulated_chip
                    == Some(e.patched(*patch).0),
                None => final(self).emulated_chip is None && (r matches Err(m) && m@
                    == no_emulated_chip_message(old(self).id)),
            },
    {
        if manufacturer.unicode_len() != 0 {
            let mut s = String::new();
            push_str(&mut s, manufacturer);
            assert(s@ =~= manufacturer@);
            self.manufacturer = s;
        }
        if product_name.unicode_len() != 0 {
            let mut s = String::new();
            push_str(&mut s, product_name);
            assert(s@ =~= product_name@);
            self.product_name = s;
        }
        match self.emulated_chip.take() {
            Some(mut e) => {
                let o = e.patch(patch);
                self.emulated_chip = Some(e);
                Ok(o)
            },
            None => Err(self.no_emulated_chip()),
        }
    }

    /// Resets the emulated chip; fails when the chip has none yet.
    pub fn reset(&mut self) -> (r: Result<(), String>)
        ensures
            final(self).same_fields(*old(self)),
            match old(self).emulated_chip {
                Some(e) => r is Ok && final(self).emulated_chip == Some(e.after_reset()),
                None => final(self).emulated_chip is None && (r matches Err(m) && m@
                    == no_emulated_chip_message(old(self).id)),
            },
    {
        match self.emulated_chip.take() {
            Some(mut e) => {
                e.reset();
                self.emulated_chip = Some(e);
                Ok(())
            },
            None => Err(self.no_emulated_chip()),
        }
    }
}

impl<E: Clone> Chip<E> {
    /// A copy of the chip; the emulated chip's handle is cloned.
    pub fn copy(&self) -> (r: Self)
        ensures
            r.same_fields(*self),
            self.emulated_chip is None ==> r.emulated_chip is None,
            self.emulated_chip is Some ==> r.emulated_chip is Some && cloned::<E>(
                self.emulated_chip.unwrap(),
                r.emulated_chip.unwrap(),
            ),
    {
        Chip {
            id: self.id,
            device_id: self.device_id,
            emulated_chip: self.emulated_chip.clone(),
            kind: self.kind,
            address: self.address.clone(),
            name: self.name.clone(),
            device_name: self.device_name.clone(),
            manufacturer: self.manufacturer.clone(),
            product_name: self.product_name.clone(),
            start: self.start,
        }
    }
}

/// The identifier handed out after `id`: the next one, wrapping around
/// after the largest.
pub open spec fn after(id: u32) -> u32 {
    if id == u32::MAX {
        0
    } else {
        (id + 1) as u32
    }
}

/// The chips by identifier, and the identifier that the next chip gets.
pub struct ChipManager<E> {
    ids: u32,
    chips: HashMap<u32, Chip<E>>,
}

impl<E: Clone> ChipManager<E> {
    /// The identifier that the next chip gets.
    pub closed spec fn next(&self) -> u32 {
        self.ids
    }

    /// The chips, by identifier.
    pub closed spec fn chips(&self) -> Map<u32, Chip<E>> {
        self.chips@
    }

    /// Every chip is kept under its own identifier.
    pub open spec fn wf(&self) -> bool {
        forall|k: u32| #[trigger] self.chips().contains_key(k) ==> self.chips()[k].id == k
    }

    /// A registry with no chip, which hands out `start` first.
    pub fn new(start: u32) -> (r: Self)
        ensures
            r.wf(),
            r.next() == start,
            r.chips() == Map::<u32, Chip<E>>::empty(),
    {
        ChipManager { ids: start, chips: HashMap::new() }
    }

    /// Hands out an identifier.
    fn next_id(&mut self) -> (r: u32)
        ensures
            r == old(self).next(),
            final(self).next() == after(r),
            final(self).chips() == old(self).chips(),
    {
        let id = self.ids;
        self.ids = self.ids.wrapping_add(1);
        id
    }

    /// Makes a chip under the next identifier, keeps it, and returns it.
    /// A chip kept under that identifier before is replaced.
    pub fn new_chip(&mut self, device_id: u32, device_name: &str, create_params: &CreateParams) -> (r:
        Result<Chip<E>, String>)
        requires
            old(self).wf(),
        ensures
            final(self).wf(),
            final(self).next() == after(old(self).next()),
            match r {
                Ok(c) => {
                    &&& c.made_from(old(self).next(), device_id, device_name@, *create_params)
                    &&& final(self).chips() == old(self).chips().insert(c.id, c)
                },
                Err(_) => false,
            },
    {
        let id = self.next_id();
        let chip = Chip::new(id, device_id, device_name, create_params);
        let kept = chip.copy();
        self.chips.insert(id, kept);
        proof {
            assert(kept == chip);
            assert forall|k: u32| #[trigger] self.chips().contains_key(k) implies self.chips()[k].id
                == k by {
                if k != id {
                    assert(old(self).chips().contains_key(k));
                }
            }
        }
        Ok(chip)
    }

    /// What `new_chip` kept is what `get_chip` finds under its identifier
    /// afterwards, and the other chips stay as they were.
    pub proof fn lemma_get_after_new(before: Self, after: Self, c: Chip<E>, k: u32)
        requires
            after.chips() == before.chips().insert(c.id, c),
        ensures
            after.chips().contains_key(c.id),
            after.chips()[c.id] == c,
            k != c.id ==> after.chips().contains_key(k) == before.chips().contains_key(k),
            k != c.id && before.chips().contains_key(k) ==> after.chips()[k] == before.chips()[k],
    {
    }

    /// A copy of the chip kept under `chip_id`, or the error that there is
    /// none.
    pub fn get_chip(&self, chip_id: u32) -> (r: Result<Chip<E>, String>)
        requires
            self.wf(),
        ensures
            match r {
                Ok(c) => {
                    &&& self.chips().contains_key(chip_id)
                    &&& c.id == chip_id
                    &&& c.same_fields(self.chips()[chip_id])
                    &&& (self.chips()[chip_id].emulated_chip is None <==> c.emulated_chip is None)
                },
                Err(m) => !self.chips().contains_key(chip_id) && m@ == missing_chip_message(
                    chip_id,
                ),
            },
    {
        match self.chips.get(&chip_id) {
            Some(chip) => Ok(chip.copy()),
            None => {
                let mut s = String::new();
                push_str(&mut s, "CHIPS does not contains key ");
                proof {
                    lemma_decimal_nonempty(chip_id as nat);
                }
                push_decimal(&mut s, chip_id as u64, 0);
                assert(s@ =~= missing_chip_message(chip_id));
                Err(s)
            },
        }
    }
}

} // verus!
