//! Logical reservations of file system space.
//!
//! A reservation covers the payload and a safety margin.  It is released when the
//! transfer that took it ends.
use std::collections::HashMap;
use vstd::prelude::*;

use crate::text::{decimal, decimal_text, join2, join3};

verus! {

pub const GIB: u64 = 1024 * 1024 * 1024;

/// Names one file system of the host.
#[derive(Debug, Clone, Copy, PartialEq, Eq, Hash, Structural)]
pub struct FilesystemKey(pub u64);

/// Why a reservation is refused; `S` is the type of its texts.
#[derive(Debug)]
pub enum ReservationError<S = String> {
    Filesystem(S),
    LedgerPoisoned,
    Overflow,
    InsufficientSpace { available: u64, active_reserved: u64, required: u64 },
}

impl View for ReservationError<String> {
    type V = ReservationError<Seq<char>>;

    open spec fn view(&self) -> ReservationError<Seq<char>> {
        match *self {
            ReservationError::Filesystem(s) => ReservationError::Filesystem(s@),
            ReservationError::LedgerPoisoned => ReservationError::LedgerPoisoned,
            ReservationError::Overflow => ReservationError::Overflow,
            ReservationError::InsufficientSpace { available, active_reserved, required } =>
                ReservationError::InsufficientSpace { available, active_reserved, required },
        }
    }
}

impl ReservationError<Seq<char>> {
    /// The message shown for the error.
    pub open spec fn message(self) -> Seq<char> {
        match self {
            ReservationError::Filesystem(s) => "filesystem operation failed: "@ + s,
            ReservationError::LedgerPoisoned => "reservation ledger is poisoned"@,
            ReservationError::Overflow => "reservation arithmetic overflow"@,
            ReservationError::InsufficientSpace { available, active_reserved, required } =>
                "insufficient space: available="@ + decimal(available as nat)
                    + ", active_reserved="@ + decimal(active_reserved as nat) + ", required="@
                    + decimal(required as nat),
        }
    }
}

impl ReservationError {
    /// The message shown for the error.
    #[must_use]
    pub fn describe(&self) -> (r: String)
        ensures
            r@ == self@.message(),
    {
        match self {
            ReservationError::Filesystem(s) => join2("filesystem operation failed: ", s.as_str()),
            ReservationError::LedgerPoisoned => "reservation ledger is poisoned".to_owned(),
            ReservationError::Overflow => "reservation arithmetic overflow".to_owned(),
            ReservationError::InsufficientSpace { available, active_reserved, required } => {
                let a = join2(
                    "insufficient space: available=",
                    decimal_text(*available).as_str(),
                );
                let b = join3(
                    a.as_str(),
                    ", active_reserved=",
                    decimal_text(*active_reserved).as_str(),
                );
                join3(b.as_str(), ", required=", decimal_text(*required).as_str())
            },
        }
    }
}

/// The safety margin on a file system of `total` bytes: a twentieth of it, but
/// at least two and at most sixteen gibibytes.
pub open spec fn headroom(total: u64) -> int {
    let twentieth = total as int / 20;
    if twentieth < 2 * GIB {
        2 * GIB
    } else if twentieth > 16 * GIB {
        16 * GIB
    } else {
        twentieth
    }
}

/// What a ledger with the reservations `active` answers to a request.
pub open spec fn reservation(
    active: Map<u64, u64>,
    key: FilesystemKey,
    available: u64,
    total: u64,
    payload_bytes: u64,
) -> Result<u64, ReservationError<Seq<char>>> {
    let required = payload_bytes + headroom(total);
    let reserved = reserved_on(active, key);
    if required > u64::MAX {
        Err(ReservationError::Overflow)
    } else if available < reserved + required {
        Err(
            ReservationError::InsufficientSpace {
                available,
                active_reserved: reserved,
                required: required as u64,
            },
        )
    } else {
        Ok(required as u64)
    }
}

/// The bytes reserved on the file system `key`.
pub open spec fn reserved_on(active: Map<u64, u64>, key: FilesystemKey) -> u64 {
    if active.dom().contains(key.0) {
        active[key.0]
    } else {
        0
    }
}

/// The ledger after `bytes` more are reserved on `key`.
pub open spec fn reserved_more(
    active: Map<u64, u64>,
    key: FilesystemKey,
    bytes: u64,
) -> Map<u64, u64> {
    active.insert(key.0, (reserved_on(active, key) + bytes) as u64)
}

/// The ledger after `bytes` on `key` are released; a file system without
/// reservations has no entry.
pub open spec fn released(active: Map<u64, u64>, key: FilesystemKey, bytes: u64) -> Map<u64, u64> {
    if !active.dom().contains(key.0) {
        active
    } else if active[key.0] <= bytes {
        active.remove(key.0)
    } else {
        active.insert(key.0, (active[key.0] - bytes) as u64)
    }
}

/// The reservations that are held.
#[derive(Debug)]
pub struct ReservationLedger {
    active: HashMap<u64, u64>,
}

/// One granted reservation.
#[derive(Debug)]
pub struct ReservationPermit {
    key: FilesystemKey,
    reserved_bytes: u64,
}

impl ReservationPermit {
    pub closed spec fn key(self) -> FilesystemKey {
        self.key
    }

    pub closed spec fn bytes(self) -> u64 {
        self.reserved_bytes
    }

    /// The bytes that the reservation covers.
    #[must_use]
    pub fn reserved_bytes(&self) -> (r: u64)
        ensures
            r == self.bytes(),
    {
        self.reserved_bytes
    }
}

impl View for ReservationLedger {
    type V = Map<u64, u64>;

    closed spec fn view(&self) -> Map<u64, u64> {
        self.active@
    }
}

impl ReservationLedger {
    /// No entry stands for nothing.
    pub open spec fn wf(self) -> bool {
        forall|k: u64| self@.dom().contains(k) ==> self@[k] > 0
    }

    /// A ledger without reservations.
    #[must_use]
    pub fn new() -> (r: Self)
        ensures
            r@ == Map::<u64, u64>::empty(),
            r.wf(),
    {
        ReservationLedger { active: HashMap::new() }
    }

    /// The bytes reserved on one file system.
    #[must_use]
    pub fn reserved(&self, key: FilesystemKey) -> (r: u64)
        ensures
            r == reserved_on(self@, key),
    {
        broadcast use vstd::std_specs::hash::group_hash_axioms;

        match self.active.get(&key.0) {
            Some(bytes) => *bytes,
            None => 0,
        }
    }

    /// Reserves the payload and the safety margin, where both still fit into what
    /// is available and not yet reserved.
    pub fn reserve_with_capacity(
        &mut self,
        key: FilesystemKey,
        available: u64,
        total: u64,
        payload_bytes: u64,
    ) -> (r: Result<ReservationPermit, ReservationError>)
        requires
            old(self).wf(),
        ensures
            final(self).wf(),
            match (r, reservation(old(self)@, key, available, total, payload_bytes)) {
                (Ok(permit), Ok(required)) => {
                    &&& permit.key() == key
                    &&& permit.bytes() == required
                    &&& final(self)@ == reserved_more(old(self)@, key, required)
                },
                (Err(error), Err(expected)) => {
                    &&& error@ == expected
                    &&& final(self)@ == old(self)@
                },
                _ => false,
            },
    {
        broadcast use vstd::std_specs::hash::group_hash_axioms;

        let twentieth: u64 = total / 20;
        let margin: u64 = if twentieth < 2 * GIB {
            2 * GIB
        } else if twentieth > 16 * GIB {
            16 * GIB
        } else {
            twentieth
        };
        let required: u64 = match payload_bytes.checked_add(margin) {
            Some(required) => required,
            None => {
                return Err(ReservationError::Overflow);
            },
        };
        let reserved: u64 = self.reserved(key);
        if available.saturating_sub(reserved) < required {
            return Err(
                ReservationError::InsufficientSpace {
                    available,
                    active_reserved: reserved,
                    required,
                },
            );
        }
        self.active.insert(key.0, reserved + required);
        Ok(ReservationPermit { key, reserved_bytes: required })
    }

    /// Gives a reservation back.
    pub fn release(&mut self, permit: ReservationPermit)
        requires
            old(self).wf(),
        ensures
            final(self).wf(),
            final(self)@ == released(old(self)@, permit.key(), permit.bytes()),
    {
        broadcast use vstd::std_specs::hash::group_hash_axioms;

        let held: Option<u64> = match self.active.get(&permit.key.0) {
            Some(bytes) => Some(*bytes),
            None => None,
        };
        if let Some(bytes) = held {
            if bytes <= permit.reserved_bytes {
                self.active.remove(&permit.key.0);
            } else {
                self.active.insert(permit.key.0, bytes - permit.reserved_bytes);
            }
        }
        assert forall|k: u64| self@.dom().contains(k) implies self@[k] > 0 by {
            assert(old(self)@.dom().contains(k));
        }
    }
}

impl Default for ReservationLedger {
    fn default() -> (r: Self)
        ensures
            r@ == Map::<u64, u64>::empty(),
            r.wf(),
    {
        ReservationLedger::new()
    }
}

/// A granted reservation never promises more than is available.
pub proof fn lemma_no_overcommitment(
    active: Map<u64, u64>,
    key: FilesystemKey,
    available: u64,
    total: u64,
    payload_bytes: u64,
)
    requires
        reservation(active, key, available, total, payload_bytes) is Ok,
    ensures
        ({
            let required = reservation(active, key, available, total, payload_bytes)->Ok_0;
            &&& required == payload_bytes + headroom(total)
            &&& reserved_on(reserved_more(active, key, required), key) == reserved_on(active, key)
                + required
            &&& reserved_on(reserved_more(active, key, required), key) <= available
        }),
{
}

/// Giving back what was just reserved leaves the ledger as it was.
pub proof fn lemma_release_undoes_reserve(
    active: Map<u64, u64>,
    key: FilesystemKey,
    bytes: u64,
)
    requires
        forall|k: u64| active.dom().contains(k) ==> active[k] > 0,
        bytes > 0,
        reserved_on(active, key) + bytes <= u64::MAX,
    ensures
        released(reserved_more(active, key, bytes), key, bytes) == active,
{
    assert(released(reserved_more(active, key, bytes), key, bytes) =~= active);
}

/// Two reservations may be given back in either order.
pub proof fn lemma_release_order_is_irrelevant(
    active: Map<u64, u64>,
    a: FilesystemKey,
    a_bytes: u64,
    b: FilesystemKey,
    b_bytes: u64,
)
    requires
        forall|k: u64| active.dom().contains(k) ==> active[k] > 0,
    ensures
        released(released(active, a, a_bytes), b, b_bytes) == released(
            released(active, b, b_bytes),
            a,
            a_bytes,
        ),
{
    assert(released(released(active, a, a_bytes), b, b_bytes) =~= released(
        released(active, b, b_bytes),
        a,
        a_bytes,
    ));
}

} // verus!
