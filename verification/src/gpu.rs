//! How many proofs may use the GPU at once.
use crate::text::{parse_usize, parsed_usize};
use vstd::prelude::*;

verus! {

/// Permits to use the GPU.
pub struct GpuSemaphore {
    available: usize,
    max: usize,
}

impl GpuSemaphore {
    /// How many permits are to be had.
    pub closed spec fn free(self) -> nat {
        self.available as nat
    }

    /// How many permits there are.
    pub closed spec fn total(self) -> nat {
        self.max as nat
    }

    #[verifier::type_invariant]
    spec fn bounded(self) -> bool {
        self.available <= self.max
    }

    /// `max` permits, all to be had.
    pub fn new(max: usize) -> (r: Self)
        ensures
            r.free() == max,
            r.total() == max,
    {
        GpuSemaphore { available: max, max }
    }

    /// Takes a permit, if there is one to be had.
    pub fn acquire(&mut self) -> (r: bool)
        ensures
            r == (old(self).free() > 0),
            final(self).free() == after_acquire(old(self).free()),
            final(self).total() == old(self).total(),
    {
        proof {
            use_type_invariant(&*self);
        }
        if self.available == 0 {
            false
        } else {
            self.available = self.available - 1;
            true
        }
    }

    /// Gives a permit back. There are never more to be had than there are.
    pub fn release(&mut self)
        ensures
            final(self).free() == after_release(old(self).free(), old(self).total()),
            final(self).total() == old(self).total(),
    {
        proof {
            use_type_invariant(&*self);
        }
        if self.available < self.max {
            self.available = self.available + 1;
        }
    }
}

/// How many permits are to be had after one was asked for.
pub open spec fn after_acquire(free: nat) -> nat {
    if free > 0 {
        (free - 1) as nat
    } else {
        free
    }
}

/// How many permits are to be had after one was given back.
pub open spec fn after_release(free: nat, total: nat) -> nat {
    if free < total {
        free + 1
    } else {
        free
    }
}

/// How many permits a machine has: as many as its setting says, at least one, and
/// one where the setting is missing or no number.
pub open spec fn parallelism(setting: Option<Seq<char>>) -> usize {
    let value = match setting {
        Some(text) => parsed_usize(text),
        None => None,
    };
    match value {
        Some(n) => if n == 0 {
            1
        } else {
            n
        },
        None => 1,
    }
}

/// How many permits a machine has, by its setting.
pub fn gpu_parallelism(setting: Option<&str>) -> (r: usize)
    ensures
        r == parallelism(
            match setting {
                Some(text) => Some(text@),
                None => None,
            },
        ),
        r >= 1,
{
    let value: usize = match setting {
        Some(text) => match parse_usize(text) {
            Some(n) => n,
            None => 1,
        },
        None => 1,
    };
    if value == 0 {
        1
    } else {
        value
    }
}

/// What may be done with permits.
pub enum PermitUse {
    Acquire,
    Release,
}

/// The permits to be had and the permits held, after some uses, of `total` that were
/// all to be had. A permit that is not held is not given back.
pub open spec fn permits_after(total: nat, uses: Seq<PermitUse>) -> (nat, nat)
    decreases uses.len(),
{
    if uses.len() == 0 {
        (total, 0)
    } else {
        let (free, held) = permits_after(total, uses.drop_last());
        match uses.last() {
            PermitUse::Acquire => (after_acquire(free), if free > 0 {
                held + 1
            } else {
                held
            }),
            PermitUse::Release => if held > 0 {
                (after_release(free, total), (held - 1) as nat)
            } else {
                (free, held)
            },
        }
    }
}

/// No permit is lost or made: those to be had and those held are always all there
/// are.
pub proof fn law_permits_are_conserved(total: nat, uses: Seq<PermitUse>)
    ensures
        permits_after(total, uses).0 + permits_after(total, uses).1 == total,
    decreases uses.len(),
{
    if uses.len() > 0 {
        law_permits_are_conserved(total, uses.drop_last());
    }
}

/// Giving a permit back undoes taking it.
pub proof fn law_release_undoes_acquire(free: nat, total: nat)
    requires
        0 < free <= total,
    ensures
        after_release(after_acquire(free), total) == free,
{
}

/// A permit is taken exactly where there is one, and only one; one is given back exactly
/// where not all are there, and only one.
pub proof fn law_one_permit_at_a_time(free: nat, total: nat)
    ensures
        free > 0 ==> after_acquire(free) + 1 == free,
        free == 0 ==> after_acquire(free) == 0,
        free < total ==> after_release(free, total) == free + 1,
        free >= total ==> after_release(free, total) == free,
{
}

/// A setting of at least one is what the machine has; everything else stands for one.
pub proof fn law_parallelism_is_the_setting(setting: Seq<char>)
    ensures
        parallelism(None) == 1,
        parallelism(Some(setting)) >= 1,
        parsed_usize(setting) matches Some(n) ==> n >= 1 ==> parallelism(Some(setting)) == n,
        parallelism(Some(setting)) > 1 ==> parsed_usize(setting) == Some(
            parallelism(Some(setting)),
        ),
{
}

/// Where a permit is to be had, one more use holds it; a permit that is held can be given
/// back; and otherwise a use changes nothing.
pub proof fn law_each_use_moves_one_permit(total: nat, uses: Seq<PermitUse>)
    ensures
        ({
            let before = permits_after(total, uses);
            let taken = permits_after(total, uses.push(PermitUse::Acquire));
            let given = permits_after(total, uses.push(PermitUse::Release));
            let (free, held) = before;
            &&& free >= 1 ==> taken.0 + 1 == free && taken.1 == held + 1
            &&& free == 0 ==> taken == before
            &&& held >= 1 ==> given.0 == free + 1 && given.1 + 1 == held
            &&& held == 0 ==> given == before
        }),
        permits_after(total, Seq::empty()) == (total, 0nat),
{
    law_permits_are_conserved(total, uses);
    assert(uses.push(PermitUse::Acquire).drop_last() =~= uses);
    assert(uses.push(PermitUse::Release).drop_last() =~= uses);
}

} // verus!
