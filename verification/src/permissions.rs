//! The permissions a member of an authority can hold, as a set of bit flags.

use vstd::prelude::*;
use vstd::string::StringExecFns;

verus! {

/// Every permission bit that is defined.
pub const AUTHORITY_ALL_BITS: i64 = 0x1ff;

/// Admin privileges: the member can do everything.
pub const AUTHORITY_ADMINISTRATOR: i64 = 1;
/// The member can manage the authority itself.
pub const AUTHORITY_MANAGE_AUTHORITY: i64 = 2;
/// The member can manage locations.
pub const AUTHORITY_MANAGE_LOCATION: i64 = 4;
/// The member can submit new locations.
pub const AUTHORITY_ADD_LOCATION: i64 = 8;
/// The member can approve or reject locations.
pub const AUTHORITY_APPROVE_LOCATION: i64 = 16;
/// The member can delete locations.
pub const AUTHORITY_DELETE_LOCATION: i64 = 32;
/// The member can manage opening times for locations.
pub const AUTHORITY_MANAGE_OPENING_TIMES: i64 = 64;
/// The member can manage reservations on the authority's locations.
pub const AUTHORITY_MANAGE_RESERVATIONS: i64 = 128;
/// The member can manage the authority's members.
pub const AUTHORITY_MANAGE_MEMBERS: i64 = 256;

/// The permissions of a member of an authority.  Only the defined bits are
/// ever set.
#[derive(Clone, Copy, Debug, PartialEq, Eq, Structural)]
pub struct AuthorityPermissions {
    bits: i64,
}

/// The name of the permission at bit `i`, in declaration order.
pub open spec fn authority_flag_name(i: int) -> Seq<char> {
    if i == 0 { "Administrator"@ }
    else if i == 1 { "ManageAuthority"@ }
    else if i == 2 { "ManageLocation"@ }
    else if i == 3 { "AddLocation"@ }
    else if i == 4 { "ApproveLocation"@ }
    else if i == 5 { "DeleteLocation"@ }
    else if i == 6 { "ManageOpeningTimes"@ }
    else if i == 7 { "ManageReservations"@ }
    else { "ManageMembers"@ }
}

/// The value of the permission at bit `i`.
pub open spec fn authority_flag_bits(i: int) -> i64 {
    if i == 0 { 1 }
    else if i == 1 { 2 }
    else if i == 2 { 4 }
    else if i == 3 { 8 }
    else if i == 4 { 16 }
    else if i == 5 { 32 }
    else if i == 6 { 64 }
    else if i == 7 { 128 }
    else { 256 }
}

impl AuthorityPermissions {
    /// The raw bits of these permissions.
    pub closed spec fn spec_bits(self) -> i64 {
        self.bits
    }

    /// Only defined bits are set.
    pub open spec fn wf(self) -> bool {
        self.spec_bits() & AUTHORITY_ALL_BITS == self.spec_bits()
    }

    /// Every value of the type sets only defined bits.
    #[verifier::type_invariant]
    spec fn only_defined_bits(self) -> bool {
        self.bits & AUTHORITY_ALL_BITS == self.bits
    }

    /// The raw bits of these permissions.
    pub fn bits(&self) -> (r: i64)
        ensures
            r == self.spec_bits(),
            self.wf(),
    {
        proof {
            use_type_invariant(self);
        }
        self.bits
    }

    /// No permission at all.
    pub fn empty() -> (r: AuthorityPermissions)
        ensures
            r.spec_bits() == 0,
            r.wf(),
    {
        proof {
            assert(0i64 & 0x1ffi64 == 0i64) by (bit_vector);
        }
        AuthorityPermissions { bits: 0 }
    }

    /// Every defined permission.
    pub fn all() -> (r: AuthorityPermissions)
        ensures
            r.spec_bits() == AUTHORITY_ALL_BITS,
            r.wf(),
    {
        proof {
            assert(0x1ffi64 & 0x1ffi64 == 0x1ffi64) by (bit_vector);
        }
        AuthorityPermissions { bits: AUTHORITY_ALL_BITS }
    }

    /// The permissions of `bits`, dropping every bit that is not defined.
    pub fn from_bits_truncate(bits: i64) -> (r: AuthorityPermissions)
        ensures
            r.spec_bits() == bits & AUTHORITY_ALL_BITS,
            r.wf(),
    {
        proof {
            assert((bits & 0x1ffi64) & 0x1ffi64 == bits & 0x1ffi64) by (bit_vector);
        }
        AuthorityPermissions { bits: bits & AUTHORITY_ALL_BITS }
    }

    /// The permissions of `bits`, if every set bit is defined.
    pub fn from_bits(bits: i64) -> (r: Option<AuthorityPermissions>)
        ensures
            r is Some <==> bits & AUTHORITY_ALL_BITS == bits,
            r matches Some(p) ==> p.spec_bits() == bits && p.wf(),
    {
        if bits & AUTHORITY_ALL_BITS == bits {
            Some(AuthorityPermissions { bits })
        } else {
            None
        }
    }

    /// Whether every permission of `other` is among these.
    pub fn contains(&self, other: &AuthorityPermissions) -> (r: bool)
        ensures
            r == (self.spec_bits() & other.spec_bits() == other.spec_bits()),
    {
        self.bits & other.bits == other.bits
    }

    /// Whether any permission of `other` is among these.
    pub fn intersects(&self, other: &AuthorityPermissions) -> (r: bool)
        ensures
            r == (self.spec_bits() & other.spec_bits() != 0),
    {
        self.bits & other.bits != 0
    }

    /// The permissions in either set.
    pub fn union(&self, other: &AuthorityPermissions) -> (r: AuthorityPermissions)
        ensures
            r.spec_bits() == self.spec_bits() | other.spec_bits(),
            r.wf(),
    {
        proof {
            use_type_invariant(self);
            use_type_invariant(other);
        }
        let a = self.bits;
        let b = other.bits;
        proof {
            assert(a & 0x1ffi64 == a && b & 0x1ffi64 == b ==> (a | b) & 0x1ffi64 == a | b)
                by (bit_vector);
        }
        AuthorityPermissions { bits: a | b }
    }

    /// The name and value of every defined permission, in declaration order.
    pub fn names() -> (r: Vec<(String, i64)>)
        ensures
            r@.len() == 9,
            forall|i: int|
                0 <= i < 9 ==> (#[trigger] r@[i]).0@ == authority_flag_name(i) && r@[i].1
                    == authority_flag_bits(i),
    {
        let mut v: Vec<(String, i64)> = Vec::new();
        v.push((String::from_str("Administrator"), 1));
        v.push((String::from_str("ManageAuthority"), 2));
        v.push((String::from_str("ManageLocation"), 4));
        v.push((String::from_str("AddLocation"), 8));
        v.push((String::from_str("ApproveLocation"), 16));
        v.push((String::from_str("DeleteLocation"), 32));
        v.push((String::from_str("ManageOpeningTimes"), 64));
        v.push((String::from_str("ManageReservations"), 128));
        v.push((String::from_str("ManageMembers"), 256));
        v
    }
}

/// Truncating drops only undefined bits: doing it twice changes nothing,
/// the result holds only defined bits, and every defined bit of the input
/// survives.
pub proof fn lemma_truncate_idempotent(bits: i64)
    ensures
        (bits & AUTHORITY_ALL_BITS) & AUTHORITY_ALL_BITS == bits & AUTHORITY_ALL_BITS,
        0 <= bits & AUTHORITY_ALL_BITS <= AUTHORITY_ALL_BITS,
        bits & AUTHORITY_ALL_BITS == bits <==> 0 <= bits <= AUTHORITY_ALL_BITS,
{
    assert((bits & 0x1ffi64) & 0x1ffi64 == bits & 0x1ffi64) by (bit_vector);
    assert(0 <= bits & 0x1ffi64 <= 0x1ffi64) by (bit_vector);
    assert(bits & 0x1ffi64 == bits <==> 0 <= bits <= 0x1ffi64) by (bit_vector);
}

/// The named permissions are distinct single bits that together make up
/// every defined bit.
pub proof fn lemma_flags_cover_all_bits()
    ensures
        forall|i: int, j: int|
            0 <= i < j < 9 ==> authority_flag_bits(i) & authority_flag_bits(j) == 0,
        1i64 | 2i64 | 4i64 | 8i64 | 16i64 | 32i64 | 64i64 | 128i64 | 256i64 == AUTHORITY_ALL_BITS,
{
    assert(1i64 | 2i64 | 4i64 | 8i64 | 16i64 | 32i64 | 64i64 | 128i64 | 256i64 == 0x1ffi64)
        by (bit_vector);
    assert forall|i: int, j: int| 0 <= i < j < 9 implies authority_flag_bits(i) & authority_flag_bits(j) == 0 by {
        let a = authority_flag_bits(i);
        let b = authority_flag_bits(j);
        assert(a != b);
        assert((a == 1 || a == 2 || a == 4 || a == 8 || a == 16 || a == 32 || a == 64 || a == 128 || a == 256)
            && (b == 1 || b == 2 || b == 4 || b == 8 || b == 16 || b == 32 || b == 64 || b == 128 || b == 256)
            && a != b ==> a & b == 0) by (bit_vector);
    }
}

/// A union of permissions holds both of its parts, and any permission that
/// holds both parts holds their union.
pub proof fn lemma_union_is_least_upper_bound(a: i64, b: i64, c: i64)
    ensures
        (a | b) & a == a,
        (a | b) & b == b,
        (c & a == a && c & b == b) ==> c & (a | b) == (a | b),
{
    assert((a | b) & a == a) by (bit_vector);
    assert((a | b) & b == b) by (bit_vector);
    assert((c & a == a && c & b == b) ==> c & (a | b) == (a | b)) by (bit_vector);
}

} // verus!
