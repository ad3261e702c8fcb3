//! The factory: the list of the pools, one for each pair of tokens, and
//! the recipient of the protocol fee.

use crate::helper::{sort_tokens, sorted_tokens, HelperError};
use crate::pair::PairError;
use crate::types::AccountId;
use vstd::prelude::*;

verus! {

/// The hash of a contract's code.
pub type CodeHash = [u8; 32];

/// Why the factory refused a call.
#[derive(Clone, Debug, PartialEq, Eq)]
pub enum FactoryError {
    PairError(PairError),
    CallerIsNotFeeSetter,
    ZeroAddress,
    IdenticalAddresses,
    PairExists,
    PairInstantiationFailed,
}

/// One pool in the factory's list: its two tokens, in order, and its
/// address.
#[derive(Clone, Copy, Debug, PartialEq, Eq)]
pub struct Listing {
    pub token_0: AccountId,
    pub token_1: AccountId,
    pub pair: AccountId,
}

impl Listing {
    /// Whether this is the pool of the two tokens, in either order.
    pub open spec fn is_of(self, token_a: AccountId, token_b: AccountId) -> bool {
        (self.token_0 == token_a && self.token_1 == token_b) || (self.token_0 == token_b
            && self.token_1 == token_a)
    }
}

/// What the factory keeps: who receives the fee, who may say so, the pools
/// in the order of their creation, and the hash of the pool contract's
/// code.
#[derive(Clone, Debug, PartialEq, Eq)]
pub struct Data {
    pub fee_to: AccountId,
    pub fee_to_setter: AccountId,
    pub all_pairs: Vec<Listing>,
    pub pair_contract_code_hash: CodeHash,
}

/// What the creation of a pool leaves to be announced.
#[derive(Clone, Copy, Debug, PartialEq, Eq)]
pub struct PairCreated {
    pub token_0: AccountId,
    pub token_1: AccountId,
    pub pair: AccountId,
    pub pair_len: u64,
}

/// The BLAKE2b hash of 256 bits of two addresses written one after the
/// other.
pub uninterp spec fn blake2x256_of_pair(token_0: Seq<u8>, token_1: Seq<u8>) -> Seq<u8>;

/// `hash_encoded` of `ink`, with `Blake2x256`, on a pair of addresses: the
/// hash of the two addresses as they are encoded, one after the other.
#[verifier::external_body]
fn hash_token_pair(token_0: &AccountId, token_1: &AccountId) -> (hash: [u8; 32])
    ensures
        hash@ == blake2x256_of_pair(token_0@, token_1@),
{
    let mut output = [0u8; 32];
    ink::env::hash_encoded::<ink::env::hash::Blake2x256, _>(
        &(ink::primitives::AccountId::from(token_0.bytes), ink::primitives::AccountId::from(token_1.bytes)),
        &mut output,
    );
    output
}

/// The first pool of the two tokens among those from position `from` on.
pub open spec fn listing_from(
    pairs: Seq<Listing>,
    token_a: AccountId,
    token_b: AccountId,
    from: int,
) -> Option<Listing>
    decreases pairs.len() - from,
{
    if from < 0 || from >= pairs.len() {
        None
    } else if pairs[from].is_of(token_a, token_b) {
        Some(pairs[from])
    } else {
        listing_from(pairs, token_a, token_b, from + 1)
    }
}

/// Where no pool from position `from` on is of the two tokens, none is
/// found, and the reverse.
pub proof fn lemma_listing_from_none(pairs: Seq<Listing>, token_a: AccountId, token_b: AccountId, from: int)
    requires
        0 <= from,
    ensures
        listing_from(pairs, token_a, token_b, from) is None <==> forall|i: int|
            from <= i < pairs.len() ==> !(#[trigger] pairs[i]).is_of(token_a, token_b),
        listing_from(pairs, token_a, token_b, from) is Some ==> listing_from(
            pairs,
            token_a,
            token_b,
            from,
        )->Some_0.is_of(token_a, token_b),
        listing_from(pairs, token_a, token_b, from) == listing_from(
            pairs,
            token_b,
            token_a,
            from,
        ),
    decreases pairs.len() - from,
{
    if from < pairs.len() {
        lemma_listing_from_none(pairs, token_a, token_b, from + 1);
    }
}

/// What the factory answers to a request for a new pool of two tokens:
/// the tokens in order, unless they are equal, the first in order is the
/// address that stands for "no account", or their pool exists.
pub open spec fn new_pair_tokens(pairs: Seq<Listing>, token_a: AccountId, token_b: AccountId) -> Result<
    (AccountId, AccountId),
    FactoryError,
> {
    let sorted = sorted_tokens(token_a, token_b);
    if sorted == Err::<(AccountId, AccountId), HelperError>(HelperError::IdenticalAddresses) {
        Err(FactoryError::IdenticalAddresses)
    } else if sorted is Err {
        Err(FactoryError::ZeroAddress)
    } else if listing_from(pairs, token_a, token_b, 0) is Some {
        Err(FactoryError::PairExists)
    } else {
        Ok(sorted->Ok_0)
    }
}

/// A pool that may be created: its tokens in order, and the salt that its
/// address is derived from.
#[derive(Clone, Copy, Debug, PartialEq, Eq)]
pub struct NewPair {
    pub token_0: AccountId,
    pub token_1: AccountId,
    pub salt: [u8; 32],
}

/// The factory: the list of pools and who receives the fee.
#[derive(Clone, Debug, PartialEq, Eq)]
pub struct Factory {
    pub data: Data,
}

impl Factory {
    /// Whether the list is in order: the tokens of each pool are in order,
    /// the first is not the address that stands for "no account", and no
    /// two pools are of the same tokens.
    pub open spec fn wf(self) -> bool {
        let pairs = self.data.all_pairs@;
        &&& forall|i: int|
            0 <= i < pairs.len() ==> (#[trigger] pairs[i]).token_0.spec_lt(pairs[i].token_1)
                && !pairs[i].token_0.spec_is_zero()
        &&& forall|i: int, j: int|
            0 <= i < j < pairs.len() ==> !(#[trigger] pairs[i]).is_of(
                (#[trigger] pairs[j]).token_0,
                pairs[j].token_1,
            )
    }

    /// The address of the pool of two tokens, in either order, if it was
    /// created.
    pub open spec fn spec_get_pair(self, token_a: AccountId, token_b: AccountId) -> Option<
        AccountId,
    > {
        match listing_from(self.data.all_pairs@, token_a, token_b, 0) {
            Some(listing) => Some(listing.pair),
            None => None,
        }
    }

    /// A factory with no pool and no fee recipient yet.
    pub fn new(fee_to_setter: AccountId, pair_code_hash: CodeHash) -> (factory: Factory)
        ensures
            factory.wf(),
            factory.data.fee_to.spec_is_zero(),
            factory.data.fee_to_setter == fee_to_setter,
            factory.data.pair_contract_code_hash == pair_code_hash,
            factory.data.all_pairs@.len() == 0,
    {
        Factory {
            data: Data {
                fee_to: AccountId::zero(),
                fee_to_setter,
                all_pairs: Vec::new(),
                pair_contract_code_hash: pair_code_hash,
            },
        }
    }

    /// The address of the pool created as number `pid`, counted from 0.
    pub fn all_pairs(&self, pid: u64) -> (pair: Option<AccountId>)
        ensures
            pid < self.data.all_pairs@.len() ==> pair == Some(self.data.all_pairs@[pid as int].pair),
            pid >= self.data.all_pairs@.len() ==> pair is None,
    {
        if pid < self.data.all_pairs.len() as u64 {
            Some(self.data.all_pairs[pid as usize].pair)
        } else {
            None
        }
    }

    /// How many pools were created.
    pub fn all_pairs_length(&self) -> (length: u64)
        ensures
            length == self.data.all_pairs@.len(),
    {
        self.data.all_pairs.len() as u64
    }

    /// The hash of the pool contract's code.
    pub fn pair_contract_code_hash(&self) -> (hash: CodeHash)
        ensures
            hash == self.data.pair_contract_code_hash,
    {
        self.data.pair_contract_code_hash
    }

    /// Who receives the fee.
    pub fn fee_to(&self) -> (recipient: AccountId)
        ensures
            recipient == self.data.fee_to,
    {
        self.data.fee_to
    }

    /// Who may say who receives the fee.
    pub fn fee_to_setter(&self) -> (setter: AccountId)
        ensures
            setter == self.data.fee_to_setter,
    {
        self.data.fee_to_setter
    }

    /// The listing of the pool of two tokens, in either order.
    fn find(&self, token_a: AccountId, token_b: AccountId) -> (found: Option<Listing>)
        ensures
            found == listing_from(self.data.all_pairs@, token_a, token_b, 0),
    {
        let mut i: usize = 0;
        while i < self.data.all_pairs.len()
            invariant
                i <= self.data.all_pairs.len(),
                listing_from(self.data.all_pairs@, token_a, token_b, 0) == listing_from(
                    self.data.all_pairs@,
                    token_a,
                    token_b,
                    i as int,
                ),
            decreases self.data.all_pairs.len() - i,
        {
            let listing = self.data.all_pairs[i];
            if (listing.token_0 == token_a && listing.token_1 == token_b) || (listing.token_0
                == token_b && listing.token_1 == token_a) {
                return Some(listing);
            }
            i += 1;
        }
        None
    }

    /// The address of the pool of two tokens, if it was created. The order
    /// of the two makes no difference.
    pub fn get_pair(&self, token_a: AccountId, token_b: AccountId) -> (pair: Option<AccountId>)
        ensures
            pair == self.spec_get_pair(token_a, token_b),
            pair == self.spec_get_pair(token_b, token_a),
    {
        proof {
            lemma_listing_from_none(self.data.all_pairs@, token_a, token_b, 0);
        }
        match self.find(token_a, token_b) {
            Some(listing) => Some(listing.pair),
            None => None,
        }
    }

    /// Whether `caller` is the one who may say who receives the fee.
    pub fn only_fee_setter(&self, caller: AccountId) -> (result: Result<(), FactoryError>)
        ensures
            result == if caller == self.data.fee_to_setter {
                Ok::<(), FactoryError>(())
            } else {
                Err::<(), FactoryError>(FactoryError::CallerIsNotFeeSetter)
            },
    {
        if !(self.data.fee_to_setter == caller) {
            return Err(FactoryError::CallerIsNotFeeSetter);
        }
        Ok(())
    }

    /// Names who receives the fee. Only the setter may.
    pub fn set_fee_to(&mut self, caller: AccountId, fee_to: AccountId) -> (result: Result<
        (),
        FactoryError,
    >)
        ensures
            caller == old(self).data.fee_to_setter ==> result is Ok && *final(self) == (Factory {
                data: Data { fee_to, ..old(self).data },
            }),
            caller != old(self).data.fee_to_setter ==> result == Err::<(), FactoryError>(
                FactoryError::CallerIsNotFeeSetter,
            ) && *final(self) == *old(self),
            old(self).wf() ==> final(self).wf(),
    {
        match self.only_fee_setter(caller) {
            Err(e) => {
                return Err(e);
            },
            Ok(()) => {},
        }
        self.data.fee_to = fee_to;
        Ok(())
    }

    /// Names who may say who receives the fee. Only the setter may.
    pub fn set_fee_to_setter(&mut self, caller: AccountId, fee_to_setter: AccountId) -> (result:
        Result<(), FactoryError>)
        ensures
            caller == old(self).data.fee_to_setter ==> result is Ok && *final(self) == (Factory {
                data: Data { fee_to_setter, ..old(self).data },
            }),
            caller != old(self).data.fee_to_setter ==> result == Err::<(), FactoryError>(
                FactoryError::CallerIsNotFeeSetter,
            ) && *final(self) == *old(self),
            old(self).wf() ==> final(self).wf(),
    {
        match self.only_fee_setter(caller) {
            Err(e) => {
                return Err(e);
            },
            Ok(()) => {},
        }
        self.data.fee_to_setter = fee_to_setter;
        Ok(())
    }

    /// The tokens of a pool that may be created, in order.
    fn new_pair_tokens(&self, token_a: AccountId, token_b: AccountId) -> (result: Result<
        (AccountId, AccountId),
        FactoryError,
    >)
        ensures
            result == new_pair_tokens(self.data.all_pairs@, token_a, token_b),
            result is Ok ==> result->Ok_0.0.spec_lt(result->Ok_0.1) && !result->Ok_0.0.spec_is_zero(),
            result is Ok ==> forall|i: int|
                0 <= i < self.data.all_pairs@.len() ==> !(#[trigger] self.data.all_pairs@[i]).is_of(
                    result->Ok_0.0,
                    result->Ok_0.1,
                ),
    {
        let (token_0, token_1) = match sort_tokens(token_a, token_b) {
            Ok(sorted) => sorted,
            Err(HelperError::IdenticalAddresses) => {
                return Err(FactoryError::IdenticalAddresses);
            },
            Err(_) => {
                return Err(FactoryError::ZeroAddress);
            },
        };
        proof {
            lemma_listing_from_none(self.data.all_pairs@, token_a, token_b, 0);
        }
        if self.find(token_a, token_b).is_some() {
            return Err(FactoryError::PairExists);
        }
        Ok((token_0, token_1))
    }

    /// Whether a pool of the two tokens may be created, and if so its
    /// tokens in order and the salt that its address is derived from.
    pub fn new_pair(&self, token_a: AccountId, token_b: AccountId) -> (result: Result<
        NewPair,
        FactoryError,
    >)
        ensures
            match new_pair_tokens(self.data.all_pairs@, token_a, token_b) {
                Ok((token_0, token_1)) => result is Ok && result->Ok_0.token_0 == token_0
                    && result->Ok_0.token_1 == token_1 && result->Ok_0.salt@ == blake2x256_of_pair(
                    token_0@,
                    token_1@,
                ),
                Err(e) => result == Err::<NewPair, FactoryError>(e),
            },
    {
        let (token_0, token_1) = match self.new_pair_tokens(token_a, token_b) {
            Ok(sorted) => sorted,
            Err(e) => {
                return Err(e);
            },
        };
        let salt = hash_token_pair(&token_0, &token_1);
        Ok(NewPair { token_0, token_1, salt })
    }

    /// Lists the pool of two tokens, which was created at `pair_contract`,
    /// under both orders of the two, and says what is to be announced. A
    /// pool that may not be created is not listed.
    pub fn create_pair(&mut self, token_a: AccountId, token_b: AccountId, pair_contract: AccountId) -> (result:
        Result<PairCreated, FactoryError>)
        ensures
            old(self).wf() ==> final(self).wf(),
            match new_pair_tokens(old(self).data.all_pairs@, token_a, token_b) {
                Ok((token_0, token_1)) => {
                    &&& result == Ok::<PairCreated, FactoryError>(
                        PairCreated {
                            token_0,
                            token_1,
                            pair: pair_contract,
                            pair_len: (old(self).data.all_pairs@.len() + 1) as u64,
                        },
                    )
                    &&& final(self).data.all_pairs@ == old(self).data.all_pairs@.push(
                        Listing { token_0, token_1, pair: pair_contract },
                    )
                    &&& final(self).spec_get_pair(token_a, token_b) == Some(pair_contract)
                    &&& final(self).spec_get_pair(token_b, token_a) == Some(pair_contract)
                    &&& *final(self) == (Factory {
                        data: Data { all_pairs: final(self).data.all_pairs, ..old(self).data },
                    })
                },
                Err(e) => result == Err::<PairCreated, FactoryError>(e) && *final(self) == *old(
                    self,
                ),
            },
    {
        let (token_0, token_1) = match self.new_pair_tokens(token_a, token_b) {
            Ok(sorted) => sorted,
            Err(e) => {
                return Err(e);
            },
        };
        let ghost before = self.data.all_pairs@;
        let listing = Listing { token_0, token_1, pair: pair_contract };
        self.data.all_pairs.push(listing);
        proof {
            let after = self.data.all_pairs@;
            if old(self).wf() {
                assert forall|i: int, j: int| 0 <= i < j < after.len() implies !(
                #[trigger] after[i]).is_of((#[trigger] after[j]).token_0, after[j].token_1) by {}
            }
            lemma_found_when_pushed(before, listing, token_a, token_b, 0);
            lemma_listing_from_none(after, token_a, token_b, 0);
        }
        let pair_len = self.all_pairs_length();
        Ok(PairCreated { token_0, token_1, pair: pair_contract, pair_len })
    }
}

/// A pool added to a list that had none of its tokens is the one found for
/// them.
proof fn lemma_found_when_pushed(
    pairs: Seq<Listing>,
    listing: Listing,
    token_a: AccountId,
    token_b: AccountId,
    from: int,
)
    requires
        0 <= from <= pairs.len(),
        listing.is_of(token_a, token_b),
        forall|i: int| 0 <= i < pairs.len() ==> !(#[trigger] pairs[i]).is_of(token_a, token_b),
    ensures
        listing_from(pairs.push(listing), token_a, token_b, from) == Some(listing),
    decreases pairs.len() - from,
{
    if from < pairs.len() {
        lemma_found_when_pushed(pairs, listing, token_a, token_b, from + 1);
    }
}

impl From<PairError> for FactoryError {
    fn from(error: PairError) -> (wrapped: FactoryError) {
        FactoryError::PairError(error)
    }
}

impl vstd::std_specs::convert::FromSpecImpl<PairError> for FactoryError {
    open spec fn obeys_from_spec() -> bool {
        true
    }

    open spec fn from_spec(error: PairError) -> FactoryError {
        FactoryError::PairError(error)
    }
}

} // verus!
