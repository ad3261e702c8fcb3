//! The plain values that the exchange works on: amounts, times,
//! addresses and 256-bit numbers.

use vstd::prelude::*;

verus! {

/// An amount of a token, of the native asset or of liquidity.
pub type Balance = u128;

/// A point in time, in the unit the host counts in.
pub type Timestamp = u64;

/// The byte that fills the address standing for "no account".
pub const ZERO_ADDRESS_BYTE: u8 = 0;

/// A 32-byte account address. Addresses are ordered as their bytes are,
/// from the first byte on.
#[derive(Clone, Copy, Debug, Eq, Hash)]
pub struct AccountId {
    pub bytes: [u8; 32],
}

impl PartialEq for AccountId {
    fn eq(&self, other: &AccountId) -> (eq: bool) {
        self.same(other)
    }
}

impl vstd::std_specs::cmp::PartialEqSpecImpl for AccountId {
    open spec fn obeys_eq_spec() -> bool {
        true
    }

    open spec fn eq_spec(&self, other: &AccountId) -> bool {
        *self == *other
    }
}

/// `a` comes before `b` when the two are read from position `from` on:
/// at the first position where they differ, `a` holds the smaller byte.
pub open spec fn bytes_lt_from(a: Seq<u8>, b: Seq<u8>, from: int) -> bool
    decreases a.len() - from,
{
    if from < 0 || from >= a.len() || from >= b.len() {
        false
    } else if a[from] != b[from] {
        a[from] < b[from]
    } else {
        bytes_lt_from(a, b, from + 1)
    }
}

impl View for AccountId {
    type V = Seq<u8>;

    open spec fn view(&self) -> Seq<u8> {
        self.bytes@
    }
}

impl AccountId {
    /// The order of addresses: that of their bytes, first byte first.
    pub open spec fn spec_lt(self, other: AccountId) -> bool {
        bytes_lt_from(self@, other@, 0)
    }

    /// Whether this is the address that stands for "no account".
    pub open spec fn spec_is_zero(self) -> bool {
        forall|i: int| 0 <= i < 32 ==> self@[i] == ZERO_ADDRESS_BYTE
    }

    /// The address of the 32 bytes given.
    pub fn new(bytes: [u8; 32]) -> (id: AccountId)
        ensures
            id.bytes == bytes,
    {
        AccountId { bytes }
    }

    /// The address that stands for "no account".
    pub open spec fn spec_zero() -> AccountId {
        AccountId { bytes: vstd::array::spec_array_fill_for_copy_type::<u8, 32>(ZERO_ADDRESS_BYTE) }
    }

    /// The address that stands for "no account".
    #[verifier::when_used_as_spec(spec_zero)]
    pub fn zero() -> (id: AccountId)
        ensures
            id == Self::spec_zero(),
            id.spec_is_zero(),
    {
        AccountId { bytes: [ZERO_ADDRESS_BYTE; 32] }
    }

    /// Whether this is the address that stands for "no account".
    pub fn is_zero(&self) -> (zero: bool)
        ensures
            zero == self.spec_is_zero(),
    {
        let mut i: usize = 0;
        while i < 32
            invariant
                i <= 32,
                forall|j: int| 0 <= j < i ==> self@[j] == ZERO_ADDRESS_BYTE,
            decreases 32 - i,
        {
            if self.bytes[i] != ZERO_ADDRESS_BYTE {
                assert(self@[i as int] != ZERO_ADDRESS_BYTE);
                return false;
            }
            i += 1;
        }
        true
    }

    /// Whether two addresses are the same.
    pub fn same(&self, other: &AccountId) -> (eq: bool)
        ensures
            eq == (*self == *other),
    {
        let mut i: usize = 0;
        while i < 32
            invariant
                i <= 32,
                forall|j: int| 0 <= j < i ==> self@[j] == other@[j],
            decreases 32 - i,
        {
            if self.bytes[i] != other.bytes[i] {
                return false;
            }
            i += 1;
        }
        proof {
            assert forall|j: int| 0 <= j < 32 implies self.bytes[j] == other.bytes[j] by {
                assert(self@[j] == other@[j]);
            }
            vstd::array::axiom_array_ext_equal(self.bytes, other.bytes);
        }
        true
    }

    /// Whether this address comes before the other.
    pub fn lt(&self, other: &AccountId) -> (less: bool)
        ensures
            less == self.spec_lt(*other),
    {
        let mut i: usize = 0;
        while i < 32
            invariant
                i <= 32,
                self.spec_lt(*other) == bytes_lt_from(self@, other@, i as int),
            decreases 32 - i,
        {
            if self.bytes[i] != other.bytes[i] {
                return self.bytes[i] < other.bytes[i];
            }
            i += 1;
        }
        false
    }
}

/// Two addresses never come before each other, and an address never comes
/// before itself.
pub proof fn lemma_lt_asymmetric(a: AccountId, b: AccountId)
    ensures
        !(a.spec_lt(b) && b.spec_lt(a)),
        !a.spec_lt(a),
{
    lemma_bytes_lt_asymmetric(a@, b@, 0);
    lemma_bytes_lt_asymmetric(a@, a@, 0);
}

/// Of two different addresses one comes before the other.
pub proof fn lemma_lt_total(a: AccountId, b: AccountId)
    ensures
        a == b || a.spec_lt(b) || b.spec_lt(a),
{
    if !a.spec_lt(b) && !b.spec_lt(a) {
        lemma_bytes_equal_from(a@, b@, 0);
        assert forall|j: int| 0 <= j < 32 implies a.bytes[j] == b.bytes[j] by {}
        vstd::array::axiom_array_ext_equal(a.bytes, b.bytes);
    }
}

/// What comes before an address comes before what the address comes
/// before.
pub proof fn lemma_lt_transitive(a: AccountId, b: AccountId, c: AccountId)
    requires
        a.spec_lt(b),
        b.spec_lt(c),
    ensures
        a.spec_lt(c),
{
    lemma_bytes_lt_transitive(a@, b@, c@, 0);
}

/// One address only stands for "no account".
pub proof fn lemma_zero_is_one(a: AccountId)
    ensures
        a.spec_is_zero() <==> a == AccountId::spec_zero(),
{
    let zero = AccountId::spec_zero();
    if a.spec_is_zero() {
        assert forall|j: int| 0 <= j < 32 implies a.bytes[j] == zero.bytes[j] by {
            assert(a@[j] == zero@[j]);
        }
        vstd::array::axiom_array_ext_equal(a.bytes, zero.bytes);
    }
}

/// The address that stands for "no account" comes before every other.
pub proof fn lemma_zero_is_first(a: AccountId, b: AccountId)
    requires
        a.spec_is_zero(),
    ensures
        !b.spec_lt(a),
        a != b ==> a.spec_lt(b),
{
    lemma_bytes_not_lt_empty(b@, a@, 0);
    lemma_lt_total(a, b);
}

/// From any position on, two sequences never come before each other.
proof fn lemma_bytes_lt_asymmetric(a: Seq<u8>, b: Seq<u8>, from: int)
    requires
        a.len() == b.len(),
        0 <= from,
    ensures
        !(bytes_lt_from(a, b, from) && bytes_lt_from(b, a, from)),
    decreases a.len() - from,
{
    if from < a.len() && a[from] == b[from] {
        lemma_bytes_lt_asymmetric(a, b, from + 1);
    }
}

/// From any position on, what comes before a sequence comes before what
/// the sequence comes before.
proof fn lemma_bytes_lt_transitive(a: Seq<u8>, b: Seq<u8>, c: Seq<u8>, from: int)
    requires
        a.len() == b.len() == c.len(),
        0 <= from,
        bytes_lt_from(a, b, from),
        bytes_lt_from(b, c, from),
    ensures
        bytes_lt_from(a, c, from),
    decreases a.len() - from,
{
    if from < a.len() && a[from] == b[from] && b[from] == c[from] {
        lemma_bytes_lt_transitive(a, b, c, from + 1);
    }
}

/// Where neither of two sequences comes before the other from a position
/// on, they agree from there on.
proof fn lemma_bytes_equal_from(a: Seq<u8>, b: Seq<u8>, from: int)
    requires
        a.len() == b.len(),
        0 <= from,
        !bytes_lt_from(a, b, from),
        !bytes_lt_from(b, a, from),
    ensures
        forall|j: int| from <= j < a.len() ==> a[j] == b[j],
    decreases a.len() - from,
{
    if from < a.len() {
        lemma_bytes_equal_from(a, b, from + 1);
    }
}

/// No sequence comes before one of the smallest bytes.
proof fn lemma_bytes_not_lt_empty(a: Seq<u8>, b: Seq<u8>, from: int)
    requires
        a.len() == b.len(),
        0 <= from,
        forall|j: int| 0 <= j < b.len() ==> b[j] == ZERO_ADDRESS_BYTE,
    ensures
        !bytes_lt_from(a, b, from),
    decreases a.len() - from,
{
    if from < a.len() && a[from] == b[from] {
        lemma_bytes_not_lt_empty(a, b, from + 1);
    }
}

/// A 256-bit unsigned integer, held as four 64-bit words, the least
/// significant first.
#[derive(Clone, Copy, Debug, PartialEq, Eq, Hash)]
pub struct WrappedU256(pub [u64; 4]);

/// The largest value that 256 bits hold.
pub open spec fn u256_max() -> nat {
    0xffff_ffff_ffff_ffff_ffff_ffff_ffff_ffff_ffff_ffff_ffff_ffff_ffff_ffff_ffff_ffffnat
}

/// The number that four 64-bit words stand for, least significant first.
pub open spec fn words_value(words: Seq<u64>) -> nat {
    (words[0] as nat) + (words[1] as nat) * 0x1_0000_0000_0000_0000nat
        + (words[2] as nat) * 0x1_0000_0000_0000_0000_0000_0000_0000_0000nat
        + (words[3] as nat)
        * 0x1_0000_0000_0000_0000_0000_0000_0000_0000_0000_0000_0000_0000nat
}

impl View for WrappedU256 {
    type V = nat;

    open spec fn view(&self) -> nat {
        words_value(self.0@)
    }
}

impl WrappedU256 {
    /// The value zero.
    pub fn zero() -> (wide: WrappedU256)
        ensures
            wide@ == 0,
    {
        WrappedU256([0u64; 4])
    }

    /// The value of a 64-bit number, widened.
    pub open spec fn spec_from_u64(value: u64) -> WrappedU256 {
        WrappedU256([value, 0u64, 0u64, 0u64])
    }

    /// The value of a 64-bit number, widened.
    #[verifier::when_used_as_spec(spec_from_u64)]
    pub fn from_u64(value: u64) -> (wide: WrappedU256)
        ensures
            wide == Self::spec_from_u64(value),
            wide@ == value,
    {
        WrappedU256([value, 0u64, 0u64, 0u64])
    }

    /// Whether the value is zero.
    pub fn is_zero(&self) -> (zero: bool)
        ensures
            zero == (self@ == 0),
    {
        self.0[0] == 0 && self.0[1] == 0 && self.0[2] == 0 && self.0[3] == 0
    }

    /// Every value fits in 256 bits.
    pub proof fn lemma_bounded(self)
        ensures
            self@ <= u256_max(),
    {
    }

    /// Two numbers of the same value are the same.
    pub proof fn lemma_value_decides(self, other: WrappedU256)
        requires
            self@ == other@,
        ensures
            self == other,
    {
        assert forall|j: int| 0 <= j < 4 implies self.0[j] == other.0[j] by {}
        vstd::array::axiom_array_ext_equal(self.0, other.0);
    }
}

impl From<u8> for WrappedU256 {
    fn from(value: u8) -> (wide: WrappedU256) {
        WrappedU256::from_u64(value as u64)
    }
}

impl vstd::std_specs::convert::FromSpecImpl<u8> for WrappedU256 {
    open spec fn obeys_from_spec() -> bool {
        true
    }

    open spec fn from_spec(value: u8) -> WrappedU256 {
        WrappedU256::spec_from_u64(value as u64)
    }
}

impl From<u16> for WrappedU256 {
    fn from(value: u16) -> (wide: WrappedU256) {
        WrappedU256::from_u64(value as u64)
    }
}

impl vstd::std_specs::convert::FromSpecImpl<u16> for WrappedU256 {
    open spec fn obeys_from_spec() -> bool {
        true
    }

    open spec fn from_spec(value: u16) -> WrappedU256 {
        WrappedU256::spec_from_u64(value as u64)
    }
}

impl From<u32> for WrappedU256 {
    fn from(value: u32) -> (wide: WrappedU256) {
        WrappedU256::from_u64(value as u64)
    }
}

impl vstd::std_specs::convert::FromSpecImpl<u32> for WrappedU256 {
    open spec fn obeys_from_spec() -> bool {
        true
    }

    open spec fn from_spec(value: u32) -> WrappedU256 {
        WrappedU256::spec_from_u64(value as u64)
    }
}

impl From<u64> for WrappedU256 {
    fn from(value: u64) -> (wide: WrappedU256) {
        WrappedU256::from_u64(value as u64)
    }
}

impl vstd::std_specs::convert::FromSpecImpl<u64> for WrappedU256 {
    open spec fn obeys_from_spec() -> bool {
        true
    }

    open spec fn from_spec(value: u64) -> WrappedU256 {
        WrappedU256::spec_from_u64(value as u64)
    }
}

impl From<usize> for WrappedU256 {
    fn from(value: usize) -> (wide: WrappedU256) {
        WrappedU256::from_u64(value as u64)
    }
}

impl vstd::std_specs::convert::FromSpecImpl<usize> for WrappedU256 {
    open spec fn obeys_from_spec() -> bool {
        true
    }

    open spec fn from_spec(value: usize) -> WrappedU256 {
        WrappedU256::spec_from_u64(value as u64)
    }
}

impl Default for WrappedU256 {
    fn default() -> (wide: WrappedU256)
        ensures
            wide@ == 0,
    {
        WrappedU256::zero()
    }
}

impl From<[u8; 32]> for AccountId {
    fn from(bytes: [u8; 32]) -> (id: AccountId) {
        AccountId { bytes }
    }
}

impl vstd::std_specs::convert::FromSpecImpl<[u8; 32]> for AccountId {
    open spec fn obeys_from_spec() -> bool {
        true
    }

    open spec fn from_spec(bytes: [u8; 32]) -> AccountId {
        AccountId { bytes }
    }
}

} // verus!
