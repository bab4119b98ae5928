//! Properties of the kitty registry that span its operations.

use vstd::prelude::*;

use crate::kitties::{
    genesis_applied, lemma_swap_removed, mixed_dna, swap_removed, Gender, AccountId, Balance, Error, Event, KittiesStorage, Kitty,
    KittyIndex,
};

verus! {

/// A kitty is listed under its owner and under no other account.
pub proof fn lemma_kitty_listed_only_under_owner(s: KittiesStorage, id: KittyIndex, who: AccountId)
    requires
        s.wf(),
        s.kitties.contains_key(id),
    ensures
        s.owned(who).contains(id) <==> who == s.kitties[id].owner,
{
    if s.owned(who).contains(id) {
        let j = choose|j: int| 0 <= j < s.owned(who).len() && s.owned(who)[j] == id;
        assert(s.kitties[s.owned(who)[j]].owner == who);
    }
}

/// The kitties are exactly those with indices `1..=kitty_cnt`: minting takes
/// the next index, and no operation removes a kitty.
pub proof fn lemma_kitties_are_those_minted(s: KittiesStorage, id: KittyIndex)
    requires
        s.wf(),
    ensures
        s.kitties.contains_key(id) <==> 1 <= id <= s.minted(),
{
}

/// Minting gives the index after the last one, and the count grows by one.
pub proof fn lemma_mint_takes_next_index(s: KittiesStorage, owner: AccountId, kitty: Kitty)
    requires
        s.wf(),
        s.mint_outcome(owner) is Ok,
        kitty.owner == owner,
    ensures
        s.mint_outcome(owner)->Ok_0 == s.minted() + 1,
        s.with_kitty(s.mint_outcome(owner)->Ok_0, kitty).minted() == s.minted() + 1,
        s.with_kitty(s.mint_outcome(owner)->Ok_0, kitty).owned(owner).len() == s.owned(owner).len() + 1,
{
}

/// A transfer moves one kitty, with its DNA, gender and price, from its
/// owner's list to the end of the receiver's list, and changes nothing
/// else: no other kitty, and no other account's list.
pub proof fn lemma_transfer_moves_one_kitty(s: KittiesStorage, id: KittyIndex, dest: AccountId)
    requires
        s.wf(),
        s.transfer_outcome(id, dest) is Ok,
    ensures
        ({
            let t = s.transfer_outcome(id, dest)->Ok_0;
            let prev = s.kitties[id].owner;
            &&& t.kitties[id] == (Kitty { owner: dest, ..s.kitties[id] })
            &&& t.kitties.dom() == s.kitties.dom()
            &&& forall|k: KittyIndex| k != id && s.kitties.contains_key(k) ==> t.kitties[k] == s.kitties[k]
            &&& t.owned(dest).last() == id
            &&& t.owned(dest).contains(id)
            &&& dest != prev ==> !t.owned(prev).contains(id)
            &&& dest != prev ==> t.owned(prev).len() == s.owned(prev).len() - 1
            &&& dest != prev ==> t.owned(dest).len() == s.owned(dest).len() + 1
            &&& forall|who: AccountId| who != dest && who != prev ==> t.owned(who) == s.owned(who)
            &&& t.kitty_cnt == s.kitty_cnt
            &&& t.events == s.events
        }),
{
    let t = s.transfer_outcome(id, dest)->Ok_0;
    let prev = s.kitties[id].owner;
    lemma_kitty_listed_only_under_owner(s, id, dest);
    assert(t.kitties.dom() =~= s.kitties.dom());
    assert(t.owned(dest).last() == id);
    if dest != prev {
        lemma_swap_removed(s.owned(prev), id);
    }
}

/// No operation removes a kitty: minting adds one, and a transfer, a new
/// price or an event keep the set of kitties as it is.
pub proof fn lemma_no_kitty_is_removed(
    s: KittiesStorage,
    id: KittyIndex,
    kitty: Kitty,
    dest: AccountId,
    price: Option<Balance>,
    event: Event,
)
    requires
        s.wf(),
    ensures
        s.mint_outcome(kitty.owner) matches Ok(new_id) ==> s.with_kitty(new_id, kitty).kitties.dom()
            == s.kitties.dom().insert(new_id),
        s.transfer_outcome(id, dest) is Ok ==> s.transfer_outcome(id, dest)->Ok_0.kitties.dom() == s.kitties.dom(),
        s.kitties.contains_key(id) ==> s.with_price(id, price).kitties.dom() == s.kitties.dom(),
        s.with_event(event).kitties == s.kitties,
{
    if s.mint_outcome(kitty.owner) is Ok {
        let new_id = s.mint_outcome(kitty.owner)->Ok_0;
        assert(s.with_kitty(new_id, kitty).kitties.dom() =~= s.kitties.dom().insert(new_id));
    }
    if s.transfer_outcome(id, dest) is Ok {
        assert(s.transfer_outcome(id, dest)->Ok_0.kitties.dom() =~= s.kitties.dom());
    }
    if s.kitties.contains_key(id) {
        assert(s.with_price(id, price).kitties.dom() =~= s.kitties.dom());
    }
}

/// Setting a price changes that kitty's price and nothing else.
pub proof fn lemma_set_price_changes_only_price(s: KittiesStorage, id: KittyIndex, price: Option<Balance>)
    requires
        s.wf(),
        s.kitties.contains_key(id),
    ensures
        s.with_price(id, price).kitties[id] == (Kitty { price, ..s.kitties[id] }),
        s.with_price(id, price).kitties.dom() == s.kitties.dom(),
        forall|k: KittyIndex| k != id ==> s.with_price(id, price).kitties[k] == s.kitties[k],
        s.with_price(id, price).kitties_owned == s.kitties_owned,
        s.with_price(id, price).kitty_cnt == s.kitty_cnt,
{
    assert(s.with_price(id, price).kitties.dom() =~= s.kitties.dom());
}

/// Where both parents carry the same bit, a child bred under any selector
/// carries it too.
pub proof fn lemma_child_keeps_shared_bits(selector: Seq<u8>, dna1: Seq<u8>, dna2: Seq<u8>)
    ensures
        ({
            let child = mixed_dna(selector, dna1, dna2);
            &&& child.len() == 16
            &&& forall|i: int| 0 <= i < 16 ==> #[trigger] child[i] & (dna1[i] & dna2[i]) == dna1[i] & dna2[i]
            &&& forall|i: int| 0 <= i < 16 ==> #[trigger] child[i] & !(dna1[i] | dna2[i]) == 0
        }),
{
    let child = mixed_dna(selector, dna1, dna2);
    assert forall|i: int| 0 <= i < 16 implies #[trigger] child[i] & (dna1[i] & dna2[i]) == dna1[i] & dna2[i]
        && child[i] & !(dna1[i] | dna2[i]) == 0 by {
        let s = selector[i];
        let a = dna1[i];
        let b = dna2[i];
        let c = child[i];
        assert(c == (s & a) | (!s & b));
        assert(c == (s & a) | (!s & b) ==> c & (a & b) == a & b && c & !(a | b) == 0) by (bit_vector);
    }
}

/// Under the invariant the listed kitty indices are exactly the kitties,
/// and no index is listed under two accounts: over all lists, each kitty
/// is listed once.
pub proof fn lemma_listed_ids_are_the_kitties(s: KittiesStorage, id: KittyIndex, a: AccountId, b: AccountId)
    requires
        s.wf(),
    ensures
        s.owned(a).contains(id) ==> s.kitties.contains_key(id),
        s.kitties.contains_key(id) ==> s.owned(s.kitties[id].owner).contains(id),
        s.owned(a).contains(id) && s.owned(b).contains(id) ==> a == b,
{
    if s.owned(a).contains(id) {
        let j = choose|j: int| 0 <= j < s.owned(a).len() && s.owned(a)[j] == id;
        assert(s.kitties.contains_key(s.owned(a)[j]));
        if s.owned(b).contains(id) {
            let k = choose|k: int| 0 <= k < s.owned(b).len() && s.owned(b)[k] == id;
            assert(s.kitties[s.owned(b)[k]].owner == b);
        }
    }
}

/// A transfer keeps the ids listed over all accounts' lists, as a
/// multiset: `k` is listed after it exactly when it was listed before, and
/// then, before as after, in one account's list and once there. The
/// kitties stay the same set, and the invariant holds before and after.
pub proof fn lemma_transfer_keeps_listed_ids(s: KittiesStorage, id: KittyIndex, dest: AccountId, k: KittyIndex)
    requires
        s.wf(),
        s.transfer_outcome(id, dest) is Ok,
    ensures
        s.transfer_outcome(id, dest)->Ok_0.wf(),
        s.transfer_outcome(id, dest)->Ok_0.kitties.dom() == s.kitties.dom(),
        (exists|a: AccountId| #[trigger] s.transfer_outcome(id, dest)->Ok_0.owned(a).contains(k))
            <==> (exists|a: AccountId| #[trigger] s.owned(a).contains(k)),
        forall|a: AccountId, b: AccountId|
            #[trigger] s.owned(a).contains(k) && #[trigger] s.owned(b).contains(k) ==> a == b,
        forall|a: AccountId, b: AccountId|
            #[trigger] s.transfer_outcome(id, dest)->Ok_0.owned(a).contains(k)
                && #[trigger] s.transfer_outcome(id, dest)->Ok_0.owned(b).contains(k) ==> a == b,
        forall|a: AccountId| #[trigger] s.owned(a).no_duplicates(),
        forall|a: AccountId| #[trigger] s.transfer_outcome(id, dest)->Ok_0.owned(a).no_duplicates(),
{
    let t = s.transfer_outcome(id, dest)->Ok_0;
    crate::kitties::lemma_transfer_wf(s, id, dest);
    lemma_transfer_moves_one_kitty(s, id, dest);
    assert forall|a: AccountId, b: AccountId|
        #[trigger] s.owned(a).contains(k) && #[trigger] s.owned(b).contains(k) implies a == b by {
        lemma_listed_ids_are_the_kitties(s, k, a, b);
    }
    assert forall|a: AccountId, b: AccountId|
        #[trigger] t.owned(a).contains(k) && #[trigger] t.owned(b).contains(k) implies a == b by {
        lemma_listed_ids_are_the_kitties(t, k, a, b);
    }
    if exists|a: AccountId| #[trigger] t.owned(a).contains(k) {
        let a = choose|a: AccountId| #[trigger] t.owned(a).contains(k);
        lemma_listed_ids_are_the_kitties(t, k, a, a);
        lemma_listed_ids_are_the_kitties(s, k, a, a);
        assert(s.owned(s.kitties[k].owner).contains(k));
    }
    if exists|a: AccountId| #[trigger] s.owned(a).contains(k) {
        let a = choose|a: AccountId| #[trigger] s.owned(a).contains(k);
        lemma_listed_ids_are_the_kitties(s, k, a, a);
        lemma_listed_ids_are_the_kitties(t, k, a, a);
        assert(t.owned(t.kitties[k].owner).contains(k));
    }
}

/// Passing a kitty from `a` to `b` and back restores the kitties, and
/// every list up to its order: the same entries, once each.
pub proof fn lemma_transfer_back_restores(s: KittiesStorage, id: KittyIndex, b: AccountId)
    requires
        s.wf(),
        s.kitties.contains_key(id),
        s.transfer_check(s.kitties[id].owner, b, id) is Ok,
    ensures
        ({
            let a = s.kitties[id].owner;
            let t = s.transfer_outcome(id, b)->Ok_0;
            &&& s.transfer_outcome(id, b) is Ok
            &&& t.transfer_check(b, a, id) is Ok
            &&& t.transfer_outcome(id, a) is Ok
            &&& t.transfer_outcome(id, a)->Ok_0.kitties == s.kitties
            &&& forall|x: AccountId| {
                let before = s.owned(x);
                let after = #[trigger] t.transfer_outcome(id, a)->Ok_0.owned(x);
                &&& after.len() == before.len()
                &&& after.no_duplicates()
                &&& before.no_duplicates()
                &&& forall|k: KittyIndex| after.contains(k) <==> before.contains(k)
            }
        }),
{
    let a = s.kitties[id].owner;
    lemma_kitty_listed_only_under_owner(s, id, a);
    lemma_kitty_listed_only_under_owner(s, id, b);
    let t = s.transfer_outcome(id, b)->Ok_0;
    crate::kitties::lemma_transfer_wf(s, id, b);
    lemma_transfer_moves_one_kitty(s, id, b);
    lemma_kitty_listed_only_under_owner(t, id, b);
    lemma_kitty_listed_only_under_owner(t, id, a);
    let u = t.transfer_outcome(id, a)->Ok_0;
    crate::kitties::lemma_transfer_wf(t, id, a);
    lemma_transfer_moves_one_kitty(t, id, a);
    assert(u.kitties =~= s.kitties) by {
        assert forall|k: KittyIndex| u.kitties.contains_key(k) <==> s.kitties.contains_key(k) by {}
        assert forall|k: KittyIndex| u.kitties.contains_key(k) implies u.kitties[k] == s.kitties[k] by {}
    }
    assert forall|x: AccountId| {
        let before = s.owned(x);
        let after = #[trigger] u.owned(x);
        &&& after.len() == before.len()
        &&& after.no_duplicates()
        &&& before.no_duplicates()
        &&& forall|k: KittyIndex| after.contains(k) <==> before.contains(k)
    } by {
        assert(u.owned(x).no_duplicates());
        assert(s.owned(x).no_duplicates());
        if x == a {
            // a lost the kitty to b and got it back at the end
            lemma_swap_removed(s.owned(a), id);
            assert(u.owned(a) == swap_removed(s.owned(a), id).push(id));
            assert forall|k: KittyIndex| u.owned(a).contains(k) <==> s.owned(a).contains(k) by {
                if u.owned(a).contains(k) && k != id {
                    let j = choose|j: int| 0 <= j < u.owned(a).len() && u.owned(a)[j] == k;
                    assert(swap_removed(s.owned(a), id).contains(k)) by {
                        assert(swap_removed(s.owned(a), id)[j] == k);
                    }
                }
                if s.owned(a).contains(k) {
                    if k == id {
                        assert(u.owned(a)[u.owned(a).len() - 1] == id);
                    } else {
                        assert(swap_removed(s.owned(a), id).contains(k));
                        let j = choose|j: int| 0 <= j < swap_removed(s.owned(a), id).len()
                            && swap_removed(s.owned(a), id)[j] == k;
                        assert(u.owned(a)[j] == k);
                    }
                }
            }
        } else if x == b {
            // b got the kitty at the end of its list and gave it back
            assert(t.owned(b) == s.owned(b).push(id));
            assert(t.owned(b).no_duplicates());
            assert(t.owned(b).index_of(id) == s.owned(b).len()) by {
                assert(t.owned(b)[s.owned(b).len() as int] == id);
            }
            assert(u.owned(b) =~= s.owned(b)) by {
                assert(u.owned(b) == swap_removed(t.owned(b), id));
            }
        }
    }
}

/// A purchase succeeds, with the kitty's owner as the seller, exactly when
/// the kitty exists, is not the buyer's, has an asking price no higher
/// than the bid, the buyer can pay the bid, and the buyer owns fewer
/// kitties than the limit. Each refusal names the first condition that
/// fails; in particular the limit refuses only a buyer who already owns
/// `max_kitty_owned` kitties or more.
pub proof fn lemma_buy_succeeds_exactly_when_allowed(
    s: KittiesStorage,
    buyer: AccountId,
    id: KittyIndex,
    bid: Balance,
    free: Balance,
)
    ensures
        ({
            let allowed = s.kitties.contains_key(id) && s.kitties[id].owner != buyer
                && s.kitties[id].price is Some && s.kitties[id].price->Some_0 <= bid && free >= bid
                && s.owned(buyer).len() < s.max_kitty_owned;
            &&& s.buy_outcome(buyer, id, bid, free) is Ok <==> allowed
            &&& allowed ==> s.buy_outcome(buyer, id, bid, free) == Ok::<AccountId, Error>(s.kitties[id].owner)
        }),
        !s.kitties.contains_key(id) ==> s.buy_outcome(buyer, id, bid, free) == Err::<AccountId, Error>(
            Error::KittyNotExist,
        ),
        s.kitties.contains_key(id) && s.kitties[id].owner == buyer ==> s.buy_outcome(buyer, id, bid, free)
            == Err::<AccountId, Error>(Error::BuyerIsKittyOwner),
        s.kitties.contains_key(id) && s.kitties[id].owner != buyer && s.kitties[id].price is None
            ==> s.buy_outcome(buyer, id, bid, free) == Err::<AccountId, Error>(Error::KittyNotForSale),
        s.kitties.contains_key(id) && s.kitties[id].owner != buyer && s.kitties[id].price is Some
            && s.kitties[id].price->Some_0 > bid ==> s.buy_outcome(buyer, id, bid, free) == Err::<AccountId, Error>(
            Error::KittyBidPriceTooLow,
        ),
        s.buy_outcome(buyer, id, bid, free) == Err::<AccountId, Error>(Error::NotEnoughBalance) ==> free < bid,
        s.buy_outcome(buyer, id, bid, free) == Err::<AccountId, Error>(Error::ExceedMaxKittyOwned) ==> s.owned(
            buyer,
        ).len() >= s.max_kitty_owned && free >= bid,
{
}

/// A transfer is allowed exactly when the kitty exists, the sender owns
/// it, the receiver is someone else and owns fewer kitties than the
/// limit; the kitty's asking price plays no part.
pub proof fn lemma_transfer_allowed_exactly_when(
    s: KittiesStorage,
    sender: AccountId,
    dest: AccountId,
    id: KittyIndex,
    price: Option<Balance>,
)
    ensures
        s.transfer_check(sender, dest, id) is Ok <==> s.kitties.contains_key(id) && s.kitties[id].owner
            == sender && sender != dest && s.owned(dest).len() < s.max_kitty_owned,
        s.kitties.contains_key(id) ==> s.with_price(id, price).transfer_check(sender, dest, id)
            == s.transfer_check(sender, dest, id),
        !s.kitties.contains_key(id) ==> s.transfer_check(sender, dest, id) == Err::<(), Error>(
            Error::KittyNotExist,
        ),
        s.kitties.contains_key(id) && s.kitties[id].owner != sender ==> s.transfer_check(sender, dest, id)
            == Err::<(), Error>(Error::NotKittyOwner),
        s.kitties.contains_key(id) && s.kitties[id].owner == sender && sender == dest ==> s.transfer_check(
            sender,
            dest,
            id,
        ) == Err::<(), Error>(Error::TransferToSelf),
{
    if s.kitties.contains_key(id) {
        let t = s.with_price(id, price);
        assert(t.kitties.contains_key(id));
        assert(t.kitties[id].owner == s.kitties[id].owner);
        assert(t.owned(dest) == s.owned(dest));
    }
}

/// Minting succeeds exactly when the index count is not exhausted and the
/// owner owns fewer kitties than the limit; it then gives the index after
/// the last one minted. The new kitty is stored under that index and
/// appended to its owner's list; every other kitty and list stays.
pub proof fn lemma_mint_allowed_exactly_when(s: KittiesStorage, owner: AccountId, kitty: Kitty)
    requires
        kitty.owner == owner,
    ensures
        s.mint_outcome(owner) is Ok <==> s.kitty_cnt != Some(u32::MAX) && s.owned(owner).len() < s.max_kitty_owned,
        s.mint_outcome(owner) is Ok ==> s.mint_outcome(owner)->Ok_0 == s.minted() + 1,
        s.mint_outcome(owner) == Err::<KittyIndex, Error>(Error::KittyCntOverflow) <==> s.kitty_cnt == Some(
            u32::MAX,
        ),
        s.mint_outcome(owner) == Err::<KittyIndex, Error>(Error::ExceedMaxKittyOwned) ==> s.owned(owner).len()
            >= s.max_kitty_owned,
        s.mint_outcome(owner) is Ok ==> {
            let id = s.mint_outcome(owner)->Ok_0;
            let t = s.with_kitty(id, kitty);
            &&& t.kitties[id] == kitty
            &&& t.owned(owner) == s.owned(owner).push(id)
            &&& t.minted() == id
            &&& forall|k: KittyIndex| k != id ==> t.kitties.contains_key(k) == s.kitties.contains_key(k) && t.kitties[k]
                == s.kitties[k]
            &&& forall|a: AccountId| a != owner ==> t.owned(a) == s.owned(a)
        },
{
}

/// Acting as a kitty's owner is allowed exactly to its owner: a missing
/// kitty is reported as such, a kitty of someone else as not owned.
pub proof fn lemma_owner_check_exactly(s: KittiesStorage, id: KittyIndex, who: AccountId)
    ensures
        s.owner_check(id, who) is Ok <==> s.kitties.contains_key(id) && s.kitties[id].owner == who,
        s.owner_check(id, who) == Err::<(), Error>(Error::KittyNotExist) <==> !s.kitties.contains_key(id),
        s.owner_check(id, who) == Err::<(), Error>(Error::NotKittyOwner) <==> s.kitties.contains_key(id)
            && s.kitties[id].owner != who,
{
}

/// A child's DNA takes each bit from the first parent where the selector
/// has a one, and from the second parent where it has a zero.
pub proof fn lemma_child_bits_follow_selector(selector: Seq<u8>, dna1: Seq<u8>, dna2: Seq<u8>, i: int)
    requires
        0 <= i < 16,
    ensures
        mixed_dna(selector, dna1, dna2).len() == 16,
        mixed_dna(selector, dna1, dna2)[i] & selector[i] == dna1[i] & selector[i],
        mixed_dna(selector, dna1, dna2)[i] & !selector[i] == dna2[i] & !selector[i],
{
    let c = mixed_dna(selector, dna1, dna2)[i];
    let sel = selector[i];
    let a = dna1[i];
    let b = dna2[i];
    assert(c == (sel & a) | (!sel & b));
    assert(((sel & a) | (!sel & b)) & sel == a & sel) by (bit_vector);
    assert(((sel & a) | (!sel & b)) & !sel == b & !sel) by (bit_vector);
}

/// Building the genesis kitties records no event, and each kitty it adds
/// is one of the list's entries, with that entry's owner, DNA and gender,
/// and without an asking price.
pub proof fn lemma_genesis_kitties_come_from_the_list(
    s: KittiesStorage,
    list: Seq<(AccountId, [u8; 16], Gender)>,
    k: KittyIndex,
)
    ensures
        genesis_applied(s, list).events == s.events,
        genesis_applied(s, list).kitties.contains_key(k) && !s.kitties.contains_key(k) ==> {
            let kitty = genesis_applied(s, list).kitties[k];
            &&& kitty.price is None
            &&& exists|j: int|
                0 <= j < list.len() && #[trigger] list[j] == (kitty.owner, kitty.dna, kitty.gender)
        },
    decreases list.len(),
{
    if list.len() > 0 {
        let rest = list.drop_last();
        lemma_genesis_kitties_come_from_the_list(s, rest, k);
        let before = genesis_applied(s, rest);
        let (owner, dna, gender) = list.last();
        let t = genesis_applied(s, list);
        if t.kitties.contains_key(k) && !s.kitties.contains_key(k) {
            match before.mint_outcome(owner) {
                Ok(id) => {
                    if id == k {
                        assert(list[list.len() - 1] == (owner, dna, gender));
                    } else {
                        let j = choose|j: int|
                            0 <= j < rest.len() && #[trigger] rest[j] == (
                                before.kitties[k].owner,
                                before.kitties[k].dna,
                                before.kitties[k].gender,
                            );
                        assert(list[j] == rest[j]);
                    }
                },
                Err(_) => {
                    let j = choose|j: int|
                        0 <= j < rest.len() && #[trigger] rest[j] == (
                            before.kitties[k].owner,
                            before.kitties[k].dna,
                            before.kitties[k].gender,
                        );
                    assert(list[j] == rest[j]);
                },
            }
        }
    }
}

/// A transfer to another account takes the kitty out of its owner's list
/// by moving that list's last entry into its place, and appends it to the
/// receiver's list.
pub proof fn lemma_transfer_swaps_in_last_entry(s: KittiesStorage, id: KittyIndex, dest: AccountId, j: int)
    requires
        s.wf(),
        s.transfer_outcome(id, dest) is Ok,
        dest != s.kitties[id].owner,
    ensures
        ({
            let t = s.transfer_outcome(id, dest)->Ok_0;
            let before = s.owned(s.kitties[id].owner);
            let after = t.owned(s.kitties[id].owner);
            let at = before.index_of(id);
            &&& 0 <= at < before.len() && before[at] == id
            &&& after.len() == before.len() - 1
            &&& at < after.len() ==> after[at] == before.last()
            &&& 0 <= j < after.len() && j != at ==> after[j] == before[j]
            &&& t.owned(dest) == s.owned(dest).push(id)
        }),
{
    let prev = s.kitties[id].owner;
    lemma_kitty_listed_only_under_owner(s, id, prev);
    let before = s.owned(prev);
    before.index_of_first_ensures(id);
}

} // verus!
