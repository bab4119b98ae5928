//! Properties of the price oracle that span its operations.

use vstd::prelude::*;

use crate::ocw::{
    average_of, last_send_outcome, prices_after_add, sum_of, transaction_type_of,
    BlockNumber, InvalidTransaction, MutateStorageError, OcwStorage, StorageRetrievalError,
    Call, PricePayload, TransactionType, ValidTransaction, MAX_LEN,
};
use crate::frame::Origin;

verus! {

/// An added price is in the list, the list grows until it holds `MAX_LEN`
/// prices and never beyond, and the average exists afterwards.
pub proof fn lemma_added_price_is_kept(prices: Seq<u32>, price: u32)
    requires
        prices.len() <= MAX_LEN,
    ensures
        prices_after_add(prices, price).contains(price),
        prices_after_add(prices, price).len() <= MAX_LEN,
        prices.len() < MAX_LEN ==> prices_after_add(prices, price).len() == prices.len() + 1,
        prices.len() == MAX_LEN ==> prices_after_add(prices, price).len() == MAX_LEN,
        average_of(prices_after_add(prices, price)) is Some,
{
    let after = prices_after_add(prices, price);
    if prices.len() < MAX_LEN {
        assert(after[prices.len() as int] == price);
    } else {
        assert(after[price as int % MAX_LEN as int] == price);
    }
}

/// A recorded price, signed or unsigned, is in the stored list afterwards;
/// the list grows by one until it holds `MAX_LEN` prices, and never beyond.
pub proof fn lemma_recorded_price_list_bounded(s: OcwStorage, who: crate::ocw::AccountId, price: u32, current_block: BlockNumber)
    requires
        s.wf(),
    ensures
        s.with_price(who, price).wf(),
        s.with_price(who, price).prices.contains(price),
        s.with_price(who, price).prices.len() == if s.prices.len() < MAX_LEN {
            s.prices.len() + 1
        } else {
            MAX_LEN as nat
        },
        s.with_unsigned_price(price, current_block).prices == s.with_price(crate::ocw::DEFAULT_ACCOUNT, price).prices,
        s.with_price(who, price).events == s.events.push(crate::ocw::Event::NewPrice { price, who }),
        s.with_price(who, price).next_unsigned_at == s.next_unsigned_at,
        s.with_unsigned_price(price, current_block).events == s.events.push(
            crate::ocw::Event::NewPrice { price, who: crate::ocw::DEFAULT_ACCOUNT },
        ),
        current_block + s.unsigned_interval <= u64::MAX ==> s.with_unsigned_price(price, current_block).next_unsigned_at
            == current_block + s.unsigned_interval,
{
    lemma_added_price_is_kept(s.prices, price);
}

/// The sum of prices that all lie between `low` and `high` lies between
/// their number times `low` and their number times `high`.
proof fn lemma_sum_between(prices: Seq<u32>, low: u32, high: u32)
    requires
        forall|i: int| 0 <= i < prices.len() ==> low <= #[trigger] prices[i] <= high,
    ensures
        prices.len() * low <= sum_of(prices) <= prices.len() * high,
    decreases prices.len(),
{
    if prices.len() > 0 {
        let before = prices.drop_last();
        lemma_sum_between(before, low, high);
        assert(prices.len() * high == before.len() * high + high && prices.len() * low == before.len() * low
            + low) by (nonlinear_arith)
            requires
                prices.len() == before.len() + 1,
        ;
    }
}

/// The average lies between the smallest and the largest price.
pub proof fn lemma_average_between_min_and_max(prices: Seq<u32>, low: u32, high: u32)
    requires
        prices.len() > 0,
        forall|i: int| 0 <= i < prices.len() ==> low <= #[trigger] prices[i] <= high,
    ensures
        low <= average_of(prices)->Some_0 <= high,
{
    let n = prices.len() as int;
    lemma_sum_between(prices, low, high);
    vstd::arithmetic::div_mod::lemma_div_is_ordered(sum_of(prices) as int, n * high, n);
    vstd::arithmetic::div_mod::lemma_div_is_ordered(n * low, sum_of(prices) as int, n);
    vstd::arithmetic::div_mod::lemma_div_multiples_vanish(high as int, n);
    vstd::arithmetic::div_mod::lemma_div_multiples_vanish(low as int, n);
    assert(n * high == high * n && n * low == low * n) by (nonlinear_arith);
}

/// The average of equal prices is that price.
pub proof fn lemma_average_of_equal_prices(prices: Seq<u32>, price: u32)
    requires
        prices.len() > 0,
        forall|i: int| 0 <= i < prices.len() ==> prices[i] == price,
    ensures
        average_of(prices) == Some(price),
{
    lemma_average_between_min_and_max(prices, price, price);
}

/// Within the grace period after the recorded send the worker sends
/// nothing; otherwise the update records the current block, and the type
/// chosen for it is never `Raw`.
pub proof fn lemma_grace_period(last: BlockNumber, block_number: BlockNumber, grace_period: BlockNumber)
    ensures
        last_send_outcome(Ok(Some(last)), block_number, grace_period) is Err <==> block_number < last + grace_period,
        last_send_outcome(Ok(Some(last)), block_number, grace_period) is Ok ==> last_send_outcome(
            Ok(Some(last)),
            block_number,
            grace_period,
        ) == Ok::<BlockNumber, ()>(block_number),
        last_send_outcome(Ok(None), block_number, grace_period) == Ok::<BlockNumber, ()>(block_number),
        last_send_outcome(Err(StorageRetrievalError::Undecodable), block_number, grace_period) == Ok::<
            BlockNumber,
            (),
        >(block_number),
        transaction_type_of(Err(MutateStorageError::ValueFunctionFailed)) == TransactionType::NoTransaction,
        transaction_type_of(Err(MutateStorageError::ConcurrentModification(block_number)))
            == TransactionType::NoTransaction,
        transaction_type_of(Ok(block_number)) != TransactionType::Raw,
        transaction_type_of(Ok(block_number)) != TransactionType::NoTransaction,
{
}

/// After an unsigned submission in block `current_block`, any unsigned
/// submission for a block before `current_block + unsigned_interval` is
/// stale.
pub proof fn lemma_unsigned_submissions_spaced(
    s: OcwStorage,
    current_block: BlockNumber,
    block_number: BlockNumber,
    now: BlockNumber,
    price: u32,
    new_price: u32,
)
    requires
        current_block + s.unsigned_interval <= u64::MAX,
        block_number < current_block + s.unsigned_interval,
    ensures
        s.with_unsigned_price(price, current_block).validity(now, block_number, new_price) == Err::<
            crate::ocw::ValidTransaction,
            InvalidTransaction,
        >(InvalidTransaction::Stale),
{
}

/// The two unsigned submissions act alike: a submission of a signed
/// payload has the answer and the effect of a plain unsigned submission of
/// the payload's price; the signature is not looked at there. An unsigned
/// origin records the price and moves the next accepted block; any other
/// origin is refused and changes nothing.
pub proof fn lemma_unsigned_submissions_equivalent(
    s: OcwStorage,
    origin: Origin,
    payload: PricePayload,
    current_block: BlockNumber,
)
    requires
        current_block + s.unsigned_interval <= u64::MAX,
    ensures
        s.unsigned_submission(origin, payload.price, current_block).0 is Ok <==> origin == Origin::Unsigned,
        origin == Origin::Unsigned ==> {
            let t = s.unsigned_submission(origin, payload.price, current_block).1;
            &&& t.prices == prices_after_add(s.prices, payload.price)
            &&& t.next_unsigned_at == current_block + s.unsigned_interval
            &&& t.events == s.events.push(crate::ocw::Event::NewPrice { price: payload.price, who: 0 })
        },
        origin != Origin::Unsigned ==> s.unsigned_submission(origin, payload.price, current_block).1 == s,
{
}

/// An accepted unsigned submission has at least the base priority, and
/// provides the tag of the next accepted block.
pub proof fn lemma_valid_priority_at_least_base(s: OcwStorage, now: BlockNumber, block_number: BlockNumber, price: u32)
    requires
        s.validity(now, block_number, price) is Ok,
    ensures
        s.validity(now, block_number, price)->Ok_0.priority >= s.unsigned_priority,
        s.validity(now, block_number, price)->Ok_0.provides == s.next_unsigned_at,
        s.next_unsigned_at <= block_number <= now,
{
}

/// The farther a submitted price lies from the current average, the higher
/// the priority of its transaction.
pub proof fn lemma_priority_grows_with_distance(
    s: OcwStorage,
    now: BlockNumber,
    block_number: BlockNumber,
    near: u32,
    far: u32,
)
    requires
        s.validity(now, block_number, near) is Ok,
        average_of(s.prices) matches Some(avg) && crate::ocw::price_distance(avg, near)
            <= crate::ocw::price_distance(avg, far),
    ensures
        s.validity(now, block_number, far) is Ok,
        s.validity(now, block_number, near)->Ok_0.priority <= s.validity(now, block_number, far)->Ok_0.priority,
{
}

/// The type of transaction sent in block `b` cycles with the block
/// number: signed when `b % 3 == 0`, unsigned for any account when it is
/// 1, unsigned for all accounts when it is 2; a failed update of the
/// record sends nothing.
pub proof fn lemma_transaction_type_cycles(b: BlockNumber, e: MutateStorageError)
    ensures
        transaction_type_of(Ok(b)) == TransactionType::Signed <==> b % 3 == 0,
        transaction_type_of(Ok(b)) == TransactionType::UnsignedForAny <==> b % 3 == 1,
        transaction_type_of(Ok(b)) == TransactionType::UnsignedForAll <==> b % 3 == 2,
        transaction_type_of(Err(e)) == TransactionType::NoTransaction,
{
}

/// A signed-payload submission with a valid signature is judged exactly
/// as a plain unsigned submission of the payload's block number and
/// price: stale when the payload's block comes before the next accepted
/// block, refused as future when it comes after the current block, else
/// valid, providing the next accepted block. An invalid signature is a bad
/// proof, and a signed call is no unsigned transaction.
pub proof fn lemma_unsigned_calls_judged_by_their_block(
    s: OcwStorage,
    payload: PricePayload,
    signature: [u8; 64],
    now: BlockNumber,
    block_number: BlockNumber,
    price: u32,
    signature_valid: bool,
)
    ensures
        ({
            let call = Call::SubmitPriceUnsignedWithSignedPayload { price_payload: payload, signature };
            let plain = Call::SubmitPriceUnsigned { block_number: payload.block_number, price: payload.price };
            &&& s.call_validity(call, now, true) == s.call_validity(plain, now, signature_valid)
            &&& s.call_validity(call, now, false) == Err::<ValidTransaction, InvalidTransaction>(
                InvalidTransaction::BadProof,
            )
        }),
        ({
            let v = s.call_validity(Call::SubmitPriceUnsigned { block_number, price }, now, signature_valid);
            &&& v == Err::<ValidTransaction, InvalidTransaction>(InvalidTransaction::Stale) <==> block_number
                < s.next_unsigned_at
            &&& v == Err::<ValidTransaction, InvalidTransaction>(InvalidTransaction::Future) <==> s.next_unsigned_at
                <= block_number && now < block_number
            &&& v is Ok <==> s.next_unsigned_at <= block_number <= now
            &&& v is Ok ==> v->Ok_0.provides == s.next_unsigned_at && v->Ok_0.longevity == 5 && v->Ok_0.propagate
        }),
        s.call_validity(Call::SubmitPrice { price }, now, signature_valid) == Err::<
            ValidTransaction,
            InvalidTransaction,
        >(InvalidTransaction::Call),
{
}

/// An accepted unsigned submission is prioritized by the base priority
/// plus the distance of its price from the current average (none while
/// no price is stored), capped at the largest `u64`.
pub proof fn lemma_priority_is_base_plus_distance(
    s: OcwStorage,
    now: BlockNumber,
    block_number: BlockNumber,
    price: u32,
)
    requires
        s.validity(now, block_number, price) is Ok,
    ensures
        ({
            let distance: int = match average_of(s.prices) {
                Some(avg) => if avg >= price {
                    avg - price
                } else {
                    price - avg
                },
                None => 0,
            };
            let wanted = s.unsigned_priority + distance;
            s.validity(now, block_number, price)->Ok_0.priority == if wanted > u64::MAX {
                u64::MAX as int
            } else {
                wanted
            }
        }),
{
}

/// The sum of no prices is zero, and a further price adds itself.
pub proof fn lemma_sum_of_appended(prices: Seq<u32>, price: u32)
    ensures
        sum_of(Seq::<u32>::empty()) == 0,
        sum_of(prices.push(price)) == sum_of(prices) + price,
{
    assert(prices.push(price).drop_last() =~= prices);
}

/// The average is the sum divided by the number of prices, rounded down:
/// the average times the number is at most the sum, and the next value
/// times the number exceeds it. No prices give no average.
pub proof fn lemma_average_divides_sum(prices: Seq<u32>)
    ensures
        average_of(prices) is None <==> prices.len() == 0,
        prices.len() > 0 ==> {
            let avg = average_of(prices)->Some_0 as int;
            let n = prices.len() as int;
            &&& avg * n <= sum_of(prices)
            &&& sum_of(prices) < (avg + 1) * n
        },
{
    if prices.len() > 0 {
        let n = prices.len() as int;
        let high = u32::MAX;
        assert forall|i: int| 0 <= i < prices.len() implies 0 <= #[trigger] prices[i] <= high by {}
        lemma_sum_between(prices, 0, high);
        let total = sum_of(prices) as int;
        vstd::arithmetic::div_mod::lemma_fundamental_div_mod(total, n);
        vstd::arithmetic::div_mod::lemma_mod_pos_bound(total, n);
        vstd::arithmetic::div_mod::lemma_div_is_ordered(total, n * (high as int), n);
        vstd::arithmetic::div_mod::lemma_div_multiples_vanish(high as int, n);
        assert(n * (high as int) == (high as int) * n) by (nonlinear_arith);
        vstd::arithmetic::div_mod::lemma_div_pos_is_pos(total, n);
        let q = total / n;
        assert(q * n <= total < (q + 1) * n) by (nonlinear_arith)
            requires
                total == n * q + total % n,
                0 <= total % n < n,
        ;
    }
}

/// While the list has room a price is appended; once it holds `MAX_LEN`
/// prices, the price takes the place of the entry at its own value modulo
/// `MAX_LEN`, and every other entry stays.
pub proof fn lemma_price_placement(prices: Seq<u32>, price: u32)
    requires
        prices.len() <= MAX_LEN,
    ensures
        prices.len() < MAX_LEN ==> prices_after_add(prices, price) == prices.push(price),
        prices.len() == MAX_LEN ==> {
            let after = prices_after_add(prices, price);
            &&& after.len() == MAX_LEN
            &&& after[price as int % MAX_LEN as int] == price
            &&& forall|j: int| 0 <= j < MAX_LEN && j != price as int % MAX_LEN as int ==> #[trigger] after[j]
                == prices[j]
        },
{
}

} // verus!
