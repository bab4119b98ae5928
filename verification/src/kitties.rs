//! The kitty registry: each kitty has a DNA, a gender, an owner and an
//! optional asking price. Accounts create, price, transfer, buy and breed
//! kitties; every account owns at most `max_kitty_owned` of them.

use std::collections::HashMap;

use vstd::prelude::*;

use crate::encoding::{blake2_128, blake2_128_of, le_bytes_u64, scale_encode_seed_and_block};
use crate::frame::{ensure_signed, Origin};

verus! {

broadcast use vstd::std_specs::hash::group_hash_axioms;

pub type AccountId = u64;

pub type KittyIndex = u32;

pub type Balance = u64;

pub type BlockNumber = u64;

/// The gender of a kitty.
#[derive(Clone, Copy, Debug, PartialEq, Eq, Structural)]
pub enum Gender {
    Male,
    Female,
}

/// A kitty's traits, owner and asking price (`None`: not for sale).
#[derive(Clone, Copy, Debug, PartialEq, Eq)]
pub struct Kitty {
    pub dna: [u8; 16],
    pub price: Option<Balance>,
    pub gender: Gender,
    pub owner: AccountId,
}

/// Why a call of this pallet was refused.
#[derive(Clone, Copy, Debug, PartialEq, Eq, Structural)]
pub enum Error {
    KittyNotExist,
    KittyCntOverflow,
    ExceedMaxKittyOwned,
    BuyerIsKittyOwner,
    KittyBidPriceTooLow,
    NotKittyOwner,
    TransferToSelf,
    NotEnoughBalance,
    KittyNotForSale,
    BreedSameParent,
    InvalidReserveAmount,
}

/// Why a dispatched call failed: a bad origin, an error of this pallet, or
/// a refusal of the currency.
#[derive(Clone, Copy, Debug, PartialEq, Eq, Structural)]
pub enum DispatchError {
    BadOrigin,
    Module(Error),
    Currency,
}

/// What a successful call records.
#[derive(Clone, Copy, Debug, PartialEq, Eq, Structural)]
pub enum Event {
    /// `(owner, kitty)`
    Created(AccountId, KittyIndex),
    /// `(owner, kitty, price)`
    PriceSet(AccountId, KittyIndex, Option<Balance>),
    /// `(from, to, kitty)`
    Transferred(AccountId, AccountId, KittyIndex),
    /// `(buyer, seller, kitty, price)`
    Bought(AccountId, AccountId, KittyIndex, Balance),
}

/// What the runtime provides to the pallet: randomness, the current block
/// and a currency. The runtime implements it: its spec functions say what
/// its state is (balances, block, the seed it gives for each subject, and
/// which reservations and transfers it grants), and its methods are bound
/// to them.
pub trait Config {
    /// The random hash that the runtime gives for `subject` in its current
    /// state.
    spec fn random_of(&self, subject: &[u8]) -> [u8; 32];

    /// The number of the current block.
    spec fn current_block(&self) -> BlockNumber;

    /// The free balance of `who`.
    spec fn free(&self, who: AccountId) -> Balance;

    /// The reserved balance of `who`.
    spec fn reserved(&self, who: AccountId) -> Balance;

    /// Whether the runtime grants a reservation of `value` from `who`.
    spec fn reserve_granted(&self, who: AccountId, value: Balance) -> bool;

    /// Whether the runtime grants a transfer of `value` from `source` to
    /// `dest`.
    spec fn transfer_granted(&self, source: AccountId, dest: AccountId, value: Balance) -> bool;

    /// A random hash for `subject` (the first part of what the runtime's
    /// randomness source returns).
    fn random(&self, subject: &[u8]) -> (seed: [u8; 32])
        ensures
            seed == self.random_of(subject),
    ;

    /// The number of the current block.
    fn block_number(&self) -> (b: BlockNumber)
        ensures
            b == self.current_block(),
    ;

    /// The free balance of `who`.
    fn free_balance(&self, who: AccountId) -> (b: Balance)
        ensures
            b == self.free(who),
    ;

    /// Moves `value` of the free balance of `who` into its reserve, if the
    /// runtime grants it; otherwise no balance changes.
    fn reserve(&mut self, who: AccountId, value: Balance) -> (r: Result<(), ()>)
        ensures
            r is Ok <==> old(self).reserve_granted(who, value),
            r is Ok ==> final(self).free(who) == old(self).free(who) - value && final(self).reserved(who)
                == old(self).reserved(who) + value,
            r is Ok ==> forall|a: AccountId|
                a != who ==> final(self).free(a) == old(self).free(a) && final(self).reserved(a)
                    == old(self).reserved(a),
            r is Err ==> forall|a: AccountId|
                final(self).free(a) == old(self).free(a) && final(self).reserved(a) == old(self).reserved(a),
    ;

    /// Moves `value` from the free balance of `source` to that of `dest`,
    /// keeping `source` alive, if the runtime grants it; otherwise no
    /// balance changes. Reserved balances stay as they are.
    fn transfer(&mut self, source: AccountId, dest: AccountId, value: Balance) -> (r: Result<(), ()>)
        ensures
            r is Ok <==> old(self).transfer_granted(source, dest, value),
            r is Ok && source != dest ==> final(self).free(source) == old(self).free(source) - value
                && final(self).free(dest) == old(self).free(dest) + value,
            r is Ok ==> forall|a: AccountId| a != source && a != dest ==> final(self).free(a) == old(self).free(a),
            r is Err ==> forall|a: AccountId| final(self).free(a) == old(self).free(a),
            forall|a: AccountId| final(self).reserved(a) == old(self).reserved(a),
    ;
}

/// The pallet's storage and constants.
pub struct Pallet {
    kitty_cnt: Option<KittyIndex>,
    kitties: HashMap<KittyIndex, Kitty>,
    kitties_owned: HashMap<AccountId, Vec<KittyIndex>>,
    events: Vec<Event>,
    max_kitty_owned: u32,
    reserve_for_create_kitty: Balance,
}

/// The abstract state of the pallet.
pub struct KittiesStorage {
    /// The index of the last kitty minted; `None` before the first.
    pub kitty_cnt: Option<KittyIndex>,
    pub kitties: Map<KittyIndex, Kitty>,
    /// Accounts with a stored list; an account without one owns nothing.
    pub kitties_owned: Map<AccountId, Seq<KittyIndex>>,
    pub events: Seq<Event>,
    pub max_kitty_owned: u32,
    pub reserve_for_create_kitty: Balance,
}

impl View for Pallet {
    type V = KittiesStorage;

    closed spec fn view(&self) -> KittiesStorage {
        KittiesStorage {
            kitty_cnt: self.kitty_cnt,
            kitties: self.kitties@,
            kitties_owned: Map::new(
                |a: AccountId| self.kitties_owned@.contains_key(a),
                |a: AccountId| self.kitties_owned@[a]@,
            ),
            events: self.events@,
            max_kitty_owned: self.max_kitty_owned,
            reserve_for_create_kitty: self.reserve_for_create_kitty,
        }
    }
}

/// The randomness subject for DNA: the ASCII text "dna".
pub open spec fn dna_subject() -> Seq<u8> {
    seq![100u8, 110u8, 97u8]
}

/// The randomness subject for genders: the ASCII text "gender".
pub open spec fn gender_subject() -> Seq<u8> {
    seq![103u8, 101u8, 110u8, 100u8, 101u8, 114u8]
}

/// The gender that a random seed gives: male for an even first byte.
pub open spec fn gender_of_seed(seed: Seq<u8>) -> Gender {
    if seed[0] % 2 == 0 {
        Gender::Male
    } else {
        Gender::Female
    }
}

/// The random seed that the runtime in state `rt` gives for a subject
/// made of the bytes `subject`.
pub open spec fn seed_for<C: Config>(rt: C, subject: Seq<u8>) -> Seq<u8> {
    rt.random_of(choose|s: &[u8]| #[trigger] s@ == subject)@
}

/// The seed for a subject depends on its bytes alone.
pub proof fn lemma_seed_for<C: Config>(rt: C, subject: &[u8])
    ensures
        rt.random_of(subject)@ == seed_for(rt, subject@),
{
    assert(exists|s: &[u8]| #[trigger] s@ == subject@) by {
        assert(subject@ == subject@);
    }
    let s = choose|s: &[u8]| #[trigger] s@ == subject@;
    assert(s =~= subject);
}

/// The DNA that the pallet draws in runtime state `rt`: the Blake2-128
/// hash of the random seed for "dna" followed by the current block number.
pub open spec fn drawn_dna<C: Config>(rt: C) -> Seq<u8> {
    blake2_128_of(seed_for(rt, dna_subject()) + le_bytes_u64(rt.current_block()))
}

/// The gender that the pallet draws in runtime state `rt`.
pub open spec fn drawn_gender<C: Config>(rt: C) -> Gender {
    gender_of_seed(seed_for(rt, gender_subject()))
}

/// The kitties that exist from the first block: an owner, a DNA and a
/// gender for each.
pub struct GenesisConfig {
    pub kitties: Vec<(AccountId, [u8; 16], Gender)>,
}

/// The storage after a genesis list is minted in order; an entry that
/// cannot be minted is passed over.
pub open spec fn genesis_applied(s: KittiesStorage, list: Seq<(AccountId, [u8; 16], Gender)>) -> KittiesStorage
    decreases list.len(),
{
    if list.len() == 0 {
        s
    } else {
        let before = genesis_applied(s, list.drop_last());
        let (owner, dna, gender) = list.last();
        match before.mint_outcome(owner) {
            Ok(id) => before.with_kitty(id, Kitty { dna, price: None, gender, owner }),
            Err(_) => before,
        }
    }
}

impl Default for GenesisConfig {
    fn default() -> (g: GenesisConfig)
        ensures
            g.kitties@.len() == 0,
    {
        GenesisConfig { kitties: Vec::new() }
    }
}

impl GenesisConfig {
    /// Mints the genesis kitties, with the DNA and gender given, in order.
    pub fn build<C: Config>(&self, rt: &C, pallet: &mut Pallet)
        requires
            old(pallet)@.wf(),
        ensures
            final(pallet)@.wf(),
            final(pallet)@ == genesis_applied(old(pallet)@, self.kitties@),
    {
        let n = self.kitties.len();
        for i in 0..n
            invariant
                n == self.kitties@.len(),
                pallet@.wf(),
                pallet@ == genesis_applied(old(pallet)@, self.kitties@.take(i as int)),
        {
            let (acct, dna, gender) = self.kitties[i];
            let _ = pallet.mint(rt, &acct, Some(dna), Some(gender));
            assert(self.kitties@.take(i + 1).drop_last() =~= self.kitties@.take(i as int));
            assert(self.kitties@.take(i + 1).last() == self.kitties@[i as int]);
        }
        assert(self.kitties@.take(n as int) =~= self.kitties@);
    }
}

impl KittiesStorage {
    /// The kitties that `who` owns, in storage order.
    pub open spec fn owned(self, who: AccountId) -> Seq<KittyIndex> {
        if self.kitties_owned.contains_key(who) {
            self.kitties_owned[who]
        } else {
            Seq::empty()
        }
    }

    /// The number of kitties minted so far.
    pub open spec fn minted(self) -> int {
        match self.kitty_cnt {
            Some(c) => c as int,
            None => 0,
        }
    }

    /// The invariant that every operation keeps: the kitties are those with
    /// indices `1..=kitty_cnt`; each is listed exactly once, under its
    /// owner; no list is longer than the limit.
    pub open spec fn wf(self) -> bool {
        &&& forall|id: KittyIndex| #[trigger]
            self.kitties.contains_key(id) <==> 1 <= id <= self.minted()
        &&& forall|who: AccountId| #[trigger]
            self.kitties_owned.contains_key(who) ==> self.kitties_owned[who].len()
                <= self.max_kitty_owned
        &&& forall|who: AccountId, i: int|
            0 <= i < self.owned(who).len() ==> {
                &&& self.kitties.contains_key(#[trigger] self.owned(who)[i])
                &&& self.kitties[self.owned(who)[i]].owner == who
            }
        &&& forall|who: AccountId| #[trigger] self.owned(who).no_duplicates()
        &&& forall|id: KittyIndex| #[trigger]
            self.kitties.contains_key(id) ==> self.owned(self.kitties[id].owner).contains(id)
    }

    /// The index that the next kitty gets, unless the count is exhausted.
    pub open spec fn next_kitty_id(self) -> Option<KittyIndex> {
        match self.kitty_cnt {
            Some(c) => if c == u32::MAX {
                None
            } else {
                Some((c + 1) as u32)
            },
            None => Some(1u32),
        }
    }

    /// What minting a kitty for `owner` gives: the new index, or why not.
    pub open spec fn mint_outcome(self, owner: AccountId) -> Result<KittyIndex, Error> {
        match self.next_kitty_id() {
            None => Err(Error::KittyCntOverflow),
            Some(id) => if self.owned(owner).len() >= self.max_kitty_owned {
                Err(Error::ExceedMaxKittyOwned)
            } else {
                Ok(id)
            },
        }
    }

    /// The storage with `event` recorded.
    pub open spec fn with_event(self, event: Event) -> KittiesStorage {
        KittiesStorage { events: self.events.push(event), ..self }
    }

    /// Whether `who` may act on the kitty `id` as its owner.
    pub open spec fn owner_check(self, id: KittyIndex, who: AccountId) -> Result<(), Error> {
        if !self.kitties.contains_key(id) {
            Err(Error::KittyNotExist)
        } else if self.kitties[id].owner != who {
            Err(Error::NotKittyOwner)
        } else {
            Ok(())
        }
    }

    /// The storage with the asking price of kitty `id` set to `price`.
    pub open spec fn with_price(self, id: KittyIndex, price: Option<Balance>) -> KittiesStorage {
        KittiesStorage {
            kitties: self.kitties.insert(id, Kitty { price, ..self.kitties[id] }),
            ..self
        }
    }

    /// Whether `sender` may give the kitty `id` to `dest`.
    pub open spec fn transfer_check(self, sender: AccountId, dest: AccountId, id: KittyIndex) -> Result<(), Error> {
        if self.owner_check(id, sender) is Err {
            self.owner_check(id, sender)
        } else if sender == dest {
            Err(Error::TransferToSelf)
        } else if self.owned(dest).len() >= self.max_kitty_owned {
            Err(Error::ExceedMaxKittyOwned)
        } else {
            Ok(())
        }
    }

    /// The checks on a purchase that come before the buyer's balance is
    /// looked at; on success, the seller.
    pub open spec fn buy_precheck(self, buyer: AccountId, id: KittyIndex, bid: Balance) -> Result<AccountId, Error> {
        if !self.kitties.contains_key(id) {
            Err(Error::KittyNotExist)
        } else if self.kitties[id].owner == buyer {
            Err(Error::BuyerIsKittyOwner)
        } else {
            match self.kitties[id].price {
                None => Err(Error::KittyNotForSale),
                Some(ask) => if ask > bid {
                    Err(Error::KittyBidPriceTooLow)
                } else {
                    Ok(self.kitties[id].owner)
                },
            }
        }
    }

    /// Whether `buyer`, with the free balance `free`, may buy the kitty
    /// `id` for `bid`; on success, the seller.
    pub open spec fn buy_outcome(self, buyer: AccountId, id: KittyIndex, bid: Balance, free: Balance) -> Result<AccountId, Error> {
        if self.buy_precheck(buyer, id, bid) is Err {
            self.buy_precheck(buyer, id, bid)
        } else if free < bid {
            Err(Error::NotEnoughBalance)
        } else if self.owned(buyer).len() >= self.max_kitty_owned {
            Err(Error::ExceedMaxKittyOwned)
        } else {
            self.buy_precheck(buyer, id, bid)
        }
    }

    /// The storage after the kitty `id` passes to `dest`, or why it cannot:
    /// the kitty leaves its owner's list (the last entry of that list takes
    /// its place) and is appended to the list of `dest`.
    pub open spec fn transfer_outcome(self, id: KittyIndex, dest: AccountId) -> Result<KittiesStorage, Error> {
        if !self.kitties.contains_key(id) {
            Err(Error::KittyNotExist)
        } else {
            let kitty = self.kitties[id];
            let prev = kitty.owner;
            if !self.owned(prev).contains(id) {
                Err(Error::KittyNotExist)
            } else {
                let removed = swap_removed(self.owned(prev), id);
                let base = if dest == prev {
                    removed
                } else {
                    self.owned(dest)
                };
                if base.len() >= self.max_kitty_owned {
                    Err(Error::ExceedMaxKittyOwned)
                } else {
                    Ok(
                        KittiesStorage {
                            kitties: self.kitties.insert(id, Kitty { owner: dest, ..kitty }),
                            kitties_owned: self.kitties_owned.insert(prev, removed).insert(
                                dest,
                                base.push(id),
                            ),
                            ..self
                        },
                    )
                }
            }
        }
    }

    /// The storage after `kitty` is stored under the fresh index `id`.
    pub open spec fn with_kitty(self, id: KittyIndex, kitty: Kitty) -> KittiesStorage {
        KittiesStorage {
            kitty_cnt: Some(id),
            kitties: self.kitties.insert(id, kitty),
            kitties_owned: self.kitties_owned.insert(kitty.owner, self.owned(kitty.owner).push(id)),
            ..self
        }
    }
}

/// The DNA that a selector draws from two parents: each bit comes from the
/// first parent where the selector has a one, from the second elsewhere.
pub open spec fn mixed_dna(selector: Seq<u8>, dna1: Seq<u8>, dna2: Seq<u8>) -> Seq<u8> {
    Seq::new(16, |i: int| (selector[i] & dna1[i]) | (!selector[i] & dna2[i]))
}

/// `list` without `id`, whose place the last entry takes.
pub open spec fn swap_removed(list: Seq<KittyIndex>, id: KittyIndex) -> Seq<KittyIndex> {
    let i = list.index_of(id);
    list.update(i, list.last()).drop_last()
}

/// Taking an entry out of a list without duplicates leaves the other
/// entries, once each.
pub proof fn lemma_swap_removed(list: Seq<KittyIndex>, id: KittyIndex)
    requires
        list.no_duplicates(),
        list.contains(id),
    ensures
        swap_removed(list, id).len() == list.len() - 1,
        swap_removed(list, id).no_duplicates(),
        forall|x: KittyIndex| #[trigger]
            swap_removed(list, id).contains(x) <==> (list.contains(x) && x != id),
        forall|j: int|
            0 <= j < swap_removed(list, id).len() ==> list.contains(#[trigger] swap_removed(list, id)[j]),
{
    let i = list.index_of(id);
    let r = swap_removed(list, id);
    let n = list.len();
    assert(0 <= i < n && list[i] == id);
    assert forall|j: int| 0 <= j < r.len() implies #[trigger] r[j] == (if j == i {
        list[n - 1]
    } else {
        list[j]
    }) by {}
    assert forall|j: int| 0 <= j < r.len() implies list.contains(#[trigger] r[j]) by {
        if j == i {
            assert(list[n - 1] == r[j]);
        } else {
            assert(list[j] == r[j]);
        }
    }
    assert forall|x: KittyIndex| #[trigger] r.contains(x) <==> (list.contains(x) && x != id) by {
        if r.contains(x) {
            let j = choose|j: int| 0 <= j < r.len() && r[j] == x;
            if j == i {
                assert(list[n - 1] == x);
                assert(n - 1 != i);
            } else {
                assert(list[j] == x);
            }
        }
        if list.contains(x) && x != id {
            let j = choose|j: int| 0 <= j < n && list[j] == x;
            if j == n - 1 {
                assert(r[i] == x);
            } else {
                assert(j != i);
                assert(r[j] == x);
            }
        }
    }
    assert forall|a: int, b: int| 0 <= a < r.len() && 0 <= b < r.len() && a != b implies r[a] != r[b] by {
        let ia = if a == i { n - 1 } else { a };
        let ib = if b == i { n - 1 } else { b };
        assert(r[a] == list[ia]);
        assert(r[b] == list[ib]);
    }
}

/// Passing a kitty to another account keeps the invariant.
pub proof fn lemma_transfer_wf(s: KittiesStorage, id: KittyIndex, dest: AccountId)
    requires
        s.wf(),
        s.transfer_outcome(id, dest) is Ok,
    ensures
        s.transfer_outcome(id, dest)->Ok_0.wf(),
        s.transfer_outcome(id, dest)->Ok_0.minted() == s.minted(),
{
    let t = s.transfer_outcome(id, dest)->Ok_0;
    let kitty = s.kitties[id];
    let prev = kitty.owner;
    let removed = swap_removed(s.owned(prev), id);
    let base = if dest == prev {
        removed
    } else {
        s.owned(dest)
    };
    lemma_swap_removed(s.owned(prev), id);
    assert forall|who: AccountId| #[trigger] t.owned(who) == if who == dest {
        base.push(id)
    } else if who == prev {
        removed
    } else {
        s.owned(who)
    } by {}
    assert(!s.owned(dest).contains(id) || dest == prev) by {
        if dest != prev && s.owned(dest).contains(id) {
            let j = choose|j: int| 0 <= j < s.owned(dest).len() && s.owned(dest)[j] == id;
            assert(s.kitties[s.owned(dest)[j]].owner == dest);
        }
    }
    assert(!base.contains(id));
    assert forall|who: AccountId, i: int| 0 <= i < t.owned(who).len() implies {
        &&& t.kitties.contains_key(#[trigger] t.owned(who)[i])
        &&& t.kitties[t.owned(who)[i]].owner == who
    } by {
        let k = t.owned(who)[i];
        if who == dest {
            if i < base.len() {
                assert(base[i] == k);
                assert(base.contains(k));
                if dest == prev {
                    assert(s.owned(prev).contains(k));
                    let j = choose|j: int| 0 <= j < s.owned(prev).len() && s.owned(prev)[j] == k;
                    assert(s.kitties[s.owned(prev)[j]].owner == prev);
                } else {
                    assert(s.kitties.contains_key(s.owned(dest)[i]));
                }
            }
        } else if who == prev {
            assert(removed.contains(k));
            assert(s.owned(prev).contains(k));
            let j = choose|j: int| 0 <= j < s.owned(prev).len() && s.owned(prev)[j] == k;
            assert(s.kitties[s.owned(prev)[j]].owner == prev);
        } else {
            assert(s.kitties.contains_key(s.owned(who)[i]));
            assert(s.owned(who)[i] != id);
        }
    }
    assert forall|who: AccountId| #[trigger] t.owned(who).no_duplicates() by {
        if who == dest {
            let o = t.owned(who);
            assert forall|a: int, b: int|
                0 <= a < o.len() && 0 <= b < o.len() && a != b implies o[a] != o[b] by {
                assert(s.owned(dest).no_duplicates());
                if a < base.len() {
                    assert(base.contains(o[a]));
                }
                if b < base.len() {
                    assert(base.contains(o[b]));
                }
            }
        } else if who != prev {
            assert(s.owned(who).no_duplicates());
        }
    }
    assert forall|k: KittyIndex| #[trigger] t.kitties.contains_key(k) implies t.owned(
        t.kitties[k].owner,
    ).contains(k) by {
        if k == id {
            assert(t.owned(dest)[base.len() as int] == id);
        } else {
            let o = s.kitties[k].owner;
            assert(s.owned(o).contains(k));
            if o == dest {
                assert(base.contains(k));
                let j = choose|j: int| 0 <= j < base.len() && base[j] == k;
                assert(t.owned(o)[j] == k);
            } else if o == prev {
                assert(removed.contains(k));
            } else {
            }
        }
    }
    assert forall|who: AccountId| #[trigger] t.kitties_owned.contains_key(who) implies t.kitties_owned[who].len()
        <= t.max_kitty_owned by {
        if who != dest && who != prev {
            assert(s.kitties_owned.contains_key(who));
        } else if who == prev && who != dest {
            assert(s.kitties_owned.contains_key(prev)) by {
                assert(s.owned(prev).contains(id));
            }
        }
    }
}

/// Recording an event keeps the invariant.
proof fn lemma_event_keeps_wf(s: KittiesStorage, e: Event)
    ensures
        s.wf() ==> s.with_event(e).wf(),
{
    let t = s.with_event(e);
    assert forall|who: AccountId| #[trigger] t.owned(who) == s.owned(who) by {}
}

/// Under the invariant no list is longer than the limit.
proof fn lemma_owned_len_bounded(s: KittiesStorage, who: AccountId)
    requires
        s.wf(),
    ensures
        s.owned(who).len() <= s.max_kitty_owned,
{
    if s.kitties_owned.contains_key(who) {
    }
}

/// Under the invariant every kitty is in its owner's list.
proof fn lemma_owner_lists_kitty(s: KittiesStorage, id: KittyIndex)
    requires
        s.wf(),
        s.kitties.contains_key(id),
    ensures
        s.owned(s.kitties[id].owner).contains(id),
{
}

/// Storing a kitty under the next index, for an owner below the limit,
/// keeps the invariant.
proof fn lemma_with_kitty_wf(s: KittiesStorage, id: KittyIndex, kitty: Kitty)
    requires
        s.wf(),
        s.next_kitty_id() == Some(id),
        s.owned(kitty.owner).len() < s.max_kitty_owned,
    ensures
        s.with_kitty(id, kitty).wf(),
        s.with_kitty(id, kitty).minted() == s.minted() + 1,
{
    let t = s.with_kitty(id, kitty);
    assert(id == s.minted() + 1);
    assert(!s.kitties.contains_key(id));
    assert forall|who: AccountId| #[trigger] t.owned(who) == if who == kitty.owner {
        s.owned(who).push(id)
    } else {
        s.owned(who)
    } by {}
    assert forall|who: AccountId, i: int| 0 <= i < t.owned(who).len() implies {
        &&& t.kitties.contains_key(#[trigger] t.owned(who)[i])
        &&& t.kitties[t.owned(who)[i]].owner == who
    } by {
        if who == kitty.owner && i == s.owned(who).len() {
        } else {
            assert(t.owned(who)[i] == s.owned(who)[i]);
            assert(s.kitties.contains_key(s.owned(who)[i]));
        }
    }
    assert forall|who: AccountId| #[trigger] t.owned(who).no_duplicates() by {
        if who == kitty.owner {
            assert forall|i: int| 0 <= i < s.owned(who).len() implies s.owned(who)[i] != id by {
                assert(s.kitties.contains_key(s.owned(who)[i]));
            }
            let o = t.owned(who);
            assert forall|i: int, j: int|
                0 <= i < o.len() && 0 <= j < o.len() && i != j implies o[i] != o[j] by {
                assert(s.owned(who).no_duplicates());
            }
        } else {
            assert(s.owned(who).no_duplicates());
        }
    }
    assert forall|k: KittyIndex| #[trigger] t.kitties.contains_key(k) implies t.owned(
        t.kitties[k].owner,
    ).contains(k) by {
        if k == id {
            assert(t.owned(kitty.owner)[s.owned(kitty.owner).len() as int] == id);
        } else {
            let o = s.kitties[k].owner;
            assert(s.owned(o).contains(k));
            let j = choose|j: int| 0 <= j < s.owned(o).len() && s.owned(o)[j] == k;
            assert(t.owned(o)[j] == k);
        }
    }
}

impl Pallet {
    /// An empty registry with the given limit per account and the deposit
    /// that creating a kitty reserves.
    pub fn new(max_kitty_owned: u32, reserve_for_create_kitty: Balance) -> (p: Pallet)
        ensures
            p@.wf(),
            p@.kitty_cnt is None,
            p@.kitties.is_empty(),
            p@.kitties_owned.is_empty(),
            p@.events.len() == 0,
            p@.max_kitty_owned == max_kitty_owned,
            p@.reserve_for_create_kitty == reserve_for_create_kitty,
    {
        let p = Pallet {
            kitty_cnt: None,
            kitties: HashMap::new(),
            kitties_owned: HashMap::new(),
            events: Vec::new(),
            max_kitty_owned,
            reserve_for_create_kitty,
        };
        assert(p@.kitties_owned =~= Map::empty());
        p
    }

    /// The index of the last kitty minted.
    pub fn kitty_cnt(&self) -> (c: Option<KittyIndex>)
        ensures
            c == self@.kitty_cnt,
    {
        self.kitty_cnt
    }

    /// The kitty stored under `id`, if any.
    pub fn kitties(&self, id: KittyIndex) -> (k: Option<Kitty>)
        ensures
            k == (if self@.kitties.contains_key(id) {
                Some(self@.kitties[id])
            } else {
                None
            }),
    {
        match self.kitties.get(&id) {
            Some(k) => Some(*k),
            None => None,
        }
    }

    /// The kitties that `who` owns.
    pub fn kitties_owned(&self, who: AccountId) -> (owned: Vec<KittyIndex>)
        ensures
            owned@ == self@.owned(who),
    {
        match self.kitties_owned.get(&who) {
            Some(list) => {
                let mut copy: Vec<KittyIndex> = Vec::new();
                let n = list.len();
                for i in 0..n
                    invariant
                        n == list@.len(),
                        copy@ == list@.take(i as int),
                {
                    copy.push(list[i]);
                    assert(copy@ =~= list@.take(i + 1));
                }
                assert(copy@ =~= list@);
                copy
            },
            None => Vec::new(),
        }
    }

    /// The events recorded so far, oldest first.
    pub fn events(&self) -> (events: Vec<Event>)
        ensures
            events@ == self@.events,
    {
        let mut copy: Vec<Event> = Vec::new();
        let n = self.events.len();
        for i in 0..n
            invariant
                n == self.events@.len(),
                copy@ == self.events@.take(i as int),
        {
            copy.push(self.events[i]);
            assert(copy@ =~= self.events@.take(i + 1));
        }
        assert(copy@ =~= self.events@);
        copy
    }

    /// The most kitties an account may own.
    pub fn max_kitty_owned(&self) -> (m: u32)
        ensures
            m == self@.max_kitty_owned,
    {
        self.max_kitty_owned
    }

    /// The deposit that creating a kitty reserves.
    pub fn reserve_for_create_kitty(&self) -> (r: Balance)
        ensures
            r == self@.reserve_for_create_kitty,
    {
        self.reserve_for_create_kitty
    }

    /// Whether `acct` owns the kitty `kitty_id`; `KittyNotExist` if there is
    /// no such kitty.
    pub fn is_kitty_owner(&self, kitty_id: &KittyIndex, acct: &AccountId) -> (r: Result<bool, Error>)
        ensures
            r == (if self@.kitties.contains_key(*kitty_id) {
                Ok(self@.kitties[*kitty_id].owner == *acct)
            } else {
                Err(Error::KittyNotExist)
            }),
    {
        match self.kitties.get(kitty_id) {
            Some(kitty) => Ok(kitty.owner == *acct),
            None => Err(Error::KittyNotExist),
        }
    }

    /// Stores a new kitty for `owner` under the next index. A DNA or gender
    /// that is not given is drawn at random. Fails, changing nothing, when
    /// the index count is exhausted or `owner` already owns the most
    /// kitties allowed.
    pub fn mint<C: Config>(
        &mut self,
        rt: &C,
        owner: &AccountId,
        dna: Option<[u8; 16]>,
        gender: Option<Gender>,
    ) -> (r: Result<KittyIndex, Error>)
        requires
            old(self)@.wf(),
        ensures
            final(self)@.wf(),
            r == old(self)@.mint_outcome(*owner),
            r is Err ==> final(self)@ == old(self)@,
            r is Ok ==> {
                let id = r->Ok_0;
                let kitty = final(self)@.kitties[id];
                &&& final(self)@ == old(self)@.with_kitty(id, kitty)
                &&& kitty.owner == *owner
                &&& kitty.price is None
                &&& match dna {
                    Some(d) => kitty.dna == d,
                    None => kitty.dna@ == drawn_dna(*rt),
                }
                &&& match gender {
                    Some(g) => kitty.gender == g,
                    None => kitty.gender == drawn_gender(*rt),
                }
            },
    {
        let dna = match dna {
            Some(d) => d,
            None => Self::gen_dna(rt),
        };
        let gender = match gender {
            Some(g) => g,
            None => Self::gen_gender(rt),
        };
        let kitty = Kitty { dna, price: None, gender, owner: *owner };
        let new_cnt = match self.kitty_cnt {
            Some(cnt) => match cnt.checked_add(1) {
                Some(c) => c,
                None => {
                    return Err(Error::KittyCntOverflow);
                },
            },
            None => 1,
        };
        let kitty_id = new_cnt;
        let mut owned = self.kitties_owned(*owner);
        if owned.len() >= self.max_kitty_owned as usize {
            return Err(Error::ExceedMaxKittyOwned);
        }
        owned.push(kitty_id);
        let ghost pre = self@;
        self.kitties_owned.insert(*owner, owned);
        self.kitties.insert(kitty_id, kitty);
        self.kitty_cnt = Some(kitty_id);
        proof {
            assert(self@.kitties_owned =~= pre.kitties_owned.insert(*owner, pre.owned(*owner).push(kitty_id)));
            assert(self@ == pre.with_kitty(kitty_id, kitty));
            lemma_with_kitty_wf(pre, kitty_id, kitty);
        }
        Ok(kitty_id)
    }

    /// Passes the kitty `kitty_id` from its owner to `dest`. All or nothing:
    /// when `dest` cannot take one more kitty, nothing changes.
    pub fn transfer_kitty_to(&mut self, kitty_id: &KittyIndex, dest: &AccountId) -> (r: Result<(), Error>)
        requires
            old(self)@.wf(),
        ensures
            final(self)@.wf(),
            match old(self)@.transfer_outcome(*kitty_id, *dest) {
                Ok(t) => r is Ok && final(self)@ == t,
                Err(e) => r == Err::<(), Error>(e) && final(self)@ == old(self)@,
            },
    {
        let mut kitty = match self.kitties.get(kitty_id) {
            Some(k) => *k,
            None => {
                return Err(Error::KittyNotExist);
            },
        };
        let prev_owner = kitty.owner;
        let mut owned = self.kitties_owned(prev_owner);
        let n = owned.len();
        let mut position: Option<usize> = None;
        let mut i: usize = 0;
        while i < n
            invariant
                n == owned@.len(),
                i <= n,
                position is None ==> forall|j: int| 0 <= j < i ==> owned@[j] != *kitty_id,
                position matches Some(p) ==> p < n && owned@[p as int] == *kitty_id,
            decreases n - i,
        {
            if position.is_none() && owned[i] == *kitty_id {
                position = Some(i);
            }
            i = i + 1;
        }
        let ghost pre = self@;
        let ind = match position {
            Some(p) => p,
            None => {
                return Err(Error::KittyNotExist);
            },
        };
        proof {
            assert(owned@.contains(*kitty_id));
            assert(owned@.no_duplicates());
            let c = owned@.index_of(*kitty_id);
            assert(owned@[c] == *kitty_id);
            assert(c == ind);
        }
        owned.swap_remove(ind);
        kitty.owner = *dest;
        if *dest == prev_owner {
            if owned.len() >= self.max_kitty_owned as usize {
                return Err(Error::ExceedMaxKittyOwned);
            }
            owned.push(*kitty_id);
            self.kitties_owned.insert(prev_owner, owned);
        } else {
            let mut dest_owned = self.kitties_owned(*dest);
            if dest_owned.len() >= self.max_kitty_owned as usize {
                return Err(Error::ExceedMaxKittyOwned);
            }
            dest_owned.push(*kitty_id);
            self.kitties_owned.insert(prev_owner, owned);
            self.kitties_owned.insert(*dest, dest_owned);
        }
        self.kitties.insert(*kitty_id, kitty);
        proof {
            let t = pre.transfer_outcome(*kitty_id, *dest)->Ok_0;
            assert(self@.kitties_owned =~= t.kitties_owned);
            assert(self@ == t);
            lemma_transfer_wf(pre, *kitty_id, *dest);
        }
        Ok(())
    }

    /// Records `event`.
    fn deposit_event(&mut self, event: Event)
        ensures
            final(self)@ == old(self)@.with_event(event),
            old(self)@.wf() ==> final(self)@.wf(),
    {
        self.events.push(event);
        proof {
            lemma_event_keeps_wf(old(self)@, event);
        }
    }

    /// Creates a kitty with random DNA and gender for the signer, after
    /// reserving the creation deposit from the signer's balance.
    pub fn create_kitty<C: Config>(&mut self, rt: &mut C, origin: Origin) -> (r: Result<(), DispatchError>)
        requires
            old(self)@.wf(),
        ensures
            final(self)@.wf(),
            r is Err ==> final(self)@ == old(self)@,
            match origin {
                Origin::Signed(sender) => {
                    let deposit = old(self)@.reserve_for_create_kitty;
                    if !old(rt).reserve_granted(sender, deposit) {
                        &&& r == Err::<(), DispatchError>(DispatchError::Module(Error::InvalidReserveAmount))
                        &&& forall|a: AccountId|
                            final(rt).free(a) == old(rt).free(a) && final(rt).reserved(a) == old(rt).reserved(a)
                    } else {
                        &&& final(rt).free(sender) == old(rt).free(sender) - deposit
                        &&& final(rt).reserved(sender) == old(rt).reserved(sender) + deposit
                        &&& forall|a: AccountId|
                            a != sender ==> final(rt).free(a) == old(rt).free(a) && final(rt).reserved(a)
                                == old(rt).reserved(a)
                        &&& match old(self)@.mint_outcome(sender) {
                            Err(e) => r == Err::<(), DispatchError>(DispatchError::Module(e)),
                            Ok(id) => {
                                let kitty = final(self)@.kitties[id];
                                &&& r is Ok
                                &&& final(self)@ == old(self)@.with_kitty(id, kitty).with_event(Event::Created(sender, id))
                                &&& kitty.owner == sender
                                &&& kitty.price is None
                                &&& kitty.dna@ == drawn_dna(*final(rt))
                                &&& kitty.gender == drawn_gender(*final(rt))
                            },
                        }
                    }
                },
                _ => r == Err::<(), DispatchError>(DispatchError::BadOrigin) && *final(rt) == *old(rt),
            },
    {
        let sender = match ensure_signed(origin) {
            Ok(a) => a,
            Err(_) => {
                return Err(DispatchError::BadOrigin);
            },
        };
        if rt.reserve(sender, self.reserve_for_create_kitty).is_err() {
            return Err(DispatchError::Module(Error::InvalidReserveAmount));
        }
        let kitty_id = match self.mint(&*rt, &sender, None, None) {
            Ok(id) => id,
            Err(e) => {
                return Err(DispatchError::Module(e));
            },
        };
        self.deposit_event(Event::Created(sender, kitty_id));
        Ok(())
    }

    /// Sets the asking price of a kitty that the signer owns (`None`: not
    /// for sale).
    pub fn set_price(&mut self, origin: Origin, kitty_id: KittyIndex, new_price: Option<Balance>) -> (r: Result<(), DispatchError>)
        requires
            old(self)@.wf(),
        ensures
            final(self)@.wf(),
            match origin {
                Origin::Signed(sender) => match old(self)@.owner_check(kitty_id, sender) {
                    Err(e) => r == Err::<(), DispatchError>(DispatchError::Module(e)) && final(self)@ == old(self)@,
                    Ok(_) => r is Ok && final(self)@ == old(self)@.with_price(kitty_id, new_price).with_event(
                        Event::PriceSet(sender, kitty_id, new_price),
                    ),
                },
                _ => r == Err::<(), DispatchError>(DispatchError::BadOrigin) && final(self)@ == old(self)@,
            },
    {
        let sender = match ensure_signed(origin) {
            Ok(a) => a,
            Err(_) => {
                return Err(DispatchError::BadOrigin);
            },
        };
        match self.is_kitty_owner(&kitty_id, &sender) {
            Ok(true) => {},
            Ok(false) => {
                return Err(DispatchError::Module(Error::NotKittyOwner));
            },
            Err(e) => {
                return Err(DispatchError::Module(e));
            },
        }
        let mut kitty = match self.kitties(kitty_id) {
            Some(k) => k,
            None => {
                return Err(DispatchError::Module(Error::KittyNotExist));
            },
        };
        kitty.price = new_price;
        let ghost pre = self@;
        self.kitties.insert(kitty_id, kitty);
        proof {
            assert(self@ == pre.with_price(kitty_id, new_price));
            let t = self@;
            assert forall|who: AccountId, i: int| 0 <= i < t.owned(who).len() implies {
                &&& t.kitties.contains_key(#[trigger] t.owned(who)[i])
                &&& t.kitties[t.owned(who)[i]].owner == who
            } by {
                assert(pre.kitties.contains_key(pre.owned(who)[i]));
            }
        }
        self.deposit_event(Event::PriceSet(sender, kitty_id, new_price));
        Ok(())
    }

    /// Gives a kitty that the signer owns to `dest`.
    pub fn transfer(&mut self, origin: Origin, dest: AccountId, kitty_id: KittyIndex) -> (r: Result<(), DispatchError>)
        requires
            old(self)@.wf(),
        ensures
            final(self)@.wf(),
            match origin {
                Origin::Signed(sender) => match old(self)@.transfer_check(sender, dest, kitty_id) {
                    Err(e) => r == Err::<(), DispatchError>(DispatchError::Module(e)) && final(self)@ == old(self)@,
                    Ok(_) => {
                        &&& r is Ok
                        &&& old(self)@.transfer_outcome(kitty_id, dest) is Ok
                        &&& final(self)@ == old(self)@.transfer_outcome(kitty_id, dest)->Ok_0.with_event(
                            Event::Transferred(sender, dest, kitty_id),
                        )
                    },
                },
                _ => r == Err::<(), DispatchError>(DispatchError::BadOrigin) && final(self)@ == old(self)@,
            },
    {
        let sender = match ensure_signed(origin) {
            Ok(a) => a,
            Err(_) => {
                return Err(DispatchError::BadOrigin);
            },
        };
        match self.is_kitty_owner(&kitty_id, &sender) {
            Ok(true) => {},
            Ok(false) => {
                return Err(DispatchError::Module(Error::NotKittyOwner));
            },
            Err(e) => {
                return Err(DispatchError::Module(e));
            },
        }
        if sender == dest {
            return Err(DispatchError::Module(Error::TransferToSelf));
        }
        let dest_owned = self.kitties_owned(dest);
        proof {
            lemma_owned_len_bounded(self@, dest);
        }
        if !((dest_owned.len() as u32) < self.max_kitty_owned) {
            return Err(DispatchError::Module(Error::ExceedMaxKittyOwned));
        }
        proof {
            lemma_owner_lists_kitty(self@, kitty_id);
        }
        match self.transfer_kitty_to(&kitty_id, &dest) {
            Ok(()) => {},
            Err(e) => {
                return Err(DispatchError::Module(e));
            },
        }
        self.deposit_event(Event::Transferred(sender, dest, kitty_id));
        Ok(())
    }

    /// The checks on a purchase of kitty `kitty_id` by `buyer` for
    /// `bid_price`, given the buyer's free balance; on success, the seller.
    pub fn buy_kitty_check(&self, buyer: AccountId, kitty_id: KittyIndex, bid_price: Balance, buyer_free: Balance) -> (r: Result<AccountId, Error>)
        requires
            self@.wf(),
        ensures
            r == self@.buy_outcome(buyer, kitty_id, bid_price, buyer_free),
    {
        let kitty = match self.kitties(kitty_id) {
            Some(k) => k,
            None => {
                return Err(Error::KittyNotExist);
            },
        };
        if kitty.owner == buyer {
            return Err(Error::BuyerIsKittyOwner);
        }
        match kitty.price {
            Some(ask_price) => {
                if !(ask_price <= bid_price) {
                    return Err(Error::KittyBidPriceTooLow);
                }
            },
            None => {
                return Err(Error::KittyNotForSale);
            },
        }
        if !(buyer_free >= bid_price) {
            return Err(Error::NotEnoughBalance);
        }
        let to_owned = self.kitties_owned(buyer);
        proof {
            lemma_owned_len_bounded(self@, buyer);
        }
        if !((to_owned.len() as u32) < self.max_kitty_owned) {
            return Err(Error::ExceedMaxKittyOwned);
        }
        Ok(kitty.owner)
    }

    /// Buys a kitty that is for sale at no more than `bid_price`: the bid
    /// goes from the signer to the seller, and the kitty to the signer.
    /// All or nothing.
    pub fn buy_kitty<C: Config>(&mut self, rt: &mut C, origin: Origin, kitty_id: KittyIndex, bid_price: Balance) -> (r: Result<(), DispatchError>)
        requires
            old(self)@.wf(),
        ensures
            final(self)@.wf(),
            r is Err ==> final(self)@ == old(self)@,
            match origin {
                Origin::Signed(buyer) => match old(self)@.buy_outcome(buyer, kitty_id, bid_price, old(rt).free(buyer)) {
                    Err(e) => r == Err::<(), DispatchError>(DispatchError::Module(e)) && *final(rt) == *old(rt),
                    Ok(seller) => if old(rt).transfer_granted(buyer, seller, bid_price) {
                        &&& r is Ok
                        &&& seller != buyer
                        &&& final(rt).free(buyer) == old(rt).free(buyer) - bid_price
                        &&& final(rt).free(seller) == old(rt).free(seller) + bid_price
                        &&& forall|a: AccountId| a != buyer && a != seller ==> final(rt).free(a) == old(rt).free(a)
                        &&& forall|a: AccountId| final(rt).reserved(a) == old(rt).reserved(a)
                        &&& old(self)@.transfer_outcome(kitty_id, buyer) is Ok
                        &&& final(self)@ == old(self)@.transfer_outcome(kitty_id, buyer)->Ok_0.with_event(
                            Event::Bought(buyer, seller, kitty_id, bid_price),
                        )
                    } else {
                        &&& r == Err::<(), DispatchError>(DispatchError::Currency)
                        &&& forall|a: AccountId|
                            final(rt).free(a) == old(rt).free(a) && final(rt).reserved(a) == old(rt).reserved(a)
                    },
                },
                _ => r == Err::<(), DispatchError>(DispatchError::BadOrigin) && *final(rt) == *old(rt),
            },
    {
        let buyer = match ensure_signed(origin) {
            Ok(a) => a,
            Err(_) => {
                return Err(DispatchError::BadOrigin);
            },
        };
        let kitty = match self.kitties(kitty_id) {
            Some(k) => k,
            None => {
                return Err(DispatchError::Module(Error::KittyNotExist));
            },
        };
        if kitty.owner == buyer {
            return Err(DispatchError::Module(Error::BuyerIsKittyOwner));
        }
        match kitty.price {
            Some(ask_price) => {
                if !(ask_price <= bid_price) {
                    return Err(DispatchError::Module(Error::KittyBidPriceTooLow));
                }
            },
            None => {
                return Err(DispatchError::Module(Error::KittyNotForSale));
            },
        }
        let buyer_free = rt.free_balance(buyer);
        let seller = match self.buy_kitty_check(buyer, kitty_id, bid_price, buyer_free) {
            Ok(s) => s,
            Err(e) => {
                return Err(DispatchError::Module(e));
            },
        };
        if rt.transfer(buyer, seller, bid_price).is_err() {
            return Err(DispatchError::Currency);
        }
        proof {
            lemma_owner_lists_kitty(self@, kitty_id);
        }
        match self.transfer_kitty_to(&kitty_id, &buyer) {
            Ok(()) => {},
            Err(e) => {
                return Err(DispatchError::Module(e));
            },
        }
        self.deposit_event(Event::Bought(buyer, seller, kitty_id, bid_price));
        Ok(())
    }

    /// The child DNA that `selector` draws from two parents' DNA.
    pub fn mix_dna(selector: &[u8; 16], dna1: &[u8; 16], dna2: &[u8; 16]) -> (child: [u8; 16])
        ensures
            child@ == mixed_dna(selector@, dna1@, dna2@),
    {
        let mut new_dna = *selector;
        for i in 0..16
            invariant
                forall|j: int| 0 <= j < i ==> new_dna@[j] == (selector@[j] & dna1@[j]) | (!selector@[j] & dna2@[j]),
                forall|j: int| i <= j < 16 ==> new_dna@[j] == selector@[j],
        {
            new_dna[i] = (new_dna[i] & dna1[i]) | (!new_dna[i] & dna2[i]);
        }
        assert(new_dna@ =~= mixed_dna(selector@, dna1@, dna2@));
        new_dna
    }

    /// A child DNA for the kitties `parent1` and `parent2`: their DNA mixed
    /// under a random selector.
    pub fn breed_dna<C: Config>(&self, rt: &C, parent1: &KittyIndex, parent2: &KittyIndex) -> (r: Result<[u8; 16], Error>)
        ensures
            !self@.kitties.contains_key(*parent1) || !self@.kitties.contains_key(*parent2)
                <==> r == Err::<[u8; 16], Error>(Error::KittyNotExist),
            r is Ok || r == Err::<[u8; 16], Error>(Error::KittyNotExist),
            r matches Ok(child) ==> child@ == mixed_dna(
                drawn_dna(*rt),
                self@.kitties[*parent1].dna@,
                self@.kitties[*parent2].dna@,
            ),
    {
        let dna1 = match self.kitties(*parent1) {
            Some(k) => k.dna,
            None => {
                return Err(Error::KittyNotExist);
            },
        };
        let dna2 = match self.kitties(*parent2) {
            Some(k) => k.dna,
            None => {
                return Err(Error::KittyNotExist);
            },
        };
        let selector = Self::gen_dna(rt);
        let child = Self::mix_dna(&selector, &dna1, &dna2);
        Ok(child)
    }

    /// Breeds two kitties that the signer owns into a new kitty of the
    /// signer, with their mixed DNA and a random gender.
    pub fn breed_kitty<C: Config>(&mut self, rt: &C, origin: Origin, parent1: KittyIndex, parent2: KittyIndex) -> (r: Result<(), DispatchError>)
        requires
            old(self)@.wf(),
        ensures
            final(self)@.wf(),
            match origin {
                Origin::Signed(sender) => {
                    let check = if old(self)@.owner_check(parent1, sender) is Err {
                        old(self)@.owner_check(parent1, sender)
                    } else {
                        old(self)@.owner_check(parent2, sender)
                    };
                    match check {
                        Err(e) => r == Err::<(), DispatchError>(DispatchError::Module(e)) && final(self)@ == old(self)@,
                        Ok(_) => match old(self)@.mint_outcome(sender) {
                            Err(e) => r == Err::<(), DispatchError>(DispatchError::Module(e)) && final(self)@ == old(self)@,
                            Ok(id) => {
                                let kitty = final(self)@.kitties[id];
                                &&& r is Ok
                                &&& final(self)@ == old(self)@.with_kitty(id, kitty)
                                &&& kitty.owner == sender
                                &&& kitty.price is None
                                &&& kitty.dna@ == mixed_dna(
                                    drawn_dna(*rt),
                                    old(self)@.kitties[parent1].dna@,
                                    old(self)@.kitties[parent2].dna@,
                                )
                                &&& kitty.gender == drawn_gender(*rt)
                            },
                        },
                    }
                },
                _ => r == Err::<(), DispatchError>(DispatchError::BadOrigin) && final(self)@ == old(self)@,
            },
    {
        let sender = match ensure_signed(origin) {
            Ok(a) => a,
            Err(_) => {
                return Err(DispatchError::BadOrigin);
            },
        };
        match self.is_kitty_owner(&parent1, &sender) {
            Ok(true) => {},
            Ok(false) => {
                return Err(DispatchError::Module(Error::NotKittyOwner));
            },
            Err(e) => {
                return Err(DispatchError::Module(e));
            },
        }
        match self.is_kitty_owner(&parent2, &sender) {
            Ok(true) => {},
            Ok(false) => {
                return Err(DispatchError::Module(Error::NotKittyOwner));
            },
            Err(e) => {
                return Err(DispatchError::Module(e));
            },
        }
        let new_dna = match self.breed_dna(rt, &parent1, &parent2) {
            Ok(d) => d,
            Err(e) => {
                return Err(DispatchError::Module(e));
            },
        };
        match self.mint(rt, &sender, Some(new_dna), None) {
            Ok(_) => Ok(()),
            Err(e) => Err(DispatchError::Module(e)),
        }
    }

    /// The gender that a random seed gives: male for an even first byte.
    pub fn gender_from_seed(seed: &[u8; 32]) -> (g: Gender)
        ensures
            g == (if seed@[0] % 2 == 0 {
                Gender::Male
            } else {
                Gender::Female
            }),
    {
        match seed[0] % 2 {
            0 => Gender::Male,
            _ => Gender::Female,
        }
    }

    /// A random gender: the one that the runtime's seed for "gender"
    /// gives.
    pub fn gen_gender<C: Config>(rt: &C) -> (g: Gender)
        ensures
            g == drawn_gender(*rt),
    {
        // The subject is the ASCII text "gender".
        let subject: [u8; 6] = [103, 101, 110, 100, 101, 114];
        assert(subject@ =~= gender_subject());
        let subject_slice = subject.as_slice();
        let random = rt.random(subject_slice);
        proof {
            lemma_seed_for(*rt, subject_slice);
        }
        Self::gender_from_seed(&random)
    }

    /// The DNA that a random seed and a block number give: the Blake2-128
    /// hash of their SCALE encoding.
    pub fn dna_from_seed(seed: [u8; 32], block: BlockNumber) -> (dna: [u8; 16])
        ensures
            dna@ == blake2_128_of(seed@ + le_bytes_u64(block)),
    {
        let payload = scale_encode_seed_and_block(seed, block);
        blake2_128(payload.as_slice())
    }

    /// A random DNA: the hash of the runtime's seed for "dna" and the
    /// current block.
    pub fn gen_dna<C: Config>(rt: &C) -> (dna: [u8; 16])
        ensures
            dna@ == drawn_dna(*rt),
    {
        // The subject is the ASCII text "dna".
        let subject: [u8; 3] = [100, 110, 97];
        assert(subject@ =~= dna_subject());
        let subject_slice = subject.as_slice();
        let random = rt.random(subject_slice);
        proof {
            lemma_seed_for(*rt, subject_slice);
        }
        let block = rt.block_number();
        Self::dna_from_seed(random, block)
    }
}

} // verus!
