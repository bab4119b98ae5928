//! The off-chain price oracle: the on-chain list of recent prices, the
//! checks on the unsigned transactions that submit them, and the decisions
//! of the off-chain worker that fetches and submits them.

use vstd::prelude::*;

use crate::frame::{ensure_none, ensure_signed, BadOrigin, Origin};

verus! {

pub type AccountId = u64;

pub type BlockNumber = u64;

/// The most prices the list keeps.
pub const MAX_LEN: usize = 64;

/// The account under which unsigned submissions are recorded.
pub const DEFAULT_ACCOUNT: AccountId = 0;

/// The prefix of the tag that a valid unsigned submission provides.
pub const TAG_PREFIX: &'static str = "ExampleOffchainWorker";

/// A price, signed by an off-chain worker's key, for an unsigned submission.
#[derive(Clone, Copy, Debug, PartialEq, Eq)]
pub struct PricePayload {
    pub block_number: BlockNumber,
    pub price: u32,
    pub public: [u8; 32],
}

impl PricePayload {
    pub fn new(block_number: BlockNumber, price: u32, public: [u8; 32]) -> (p: PricePayload)
        ensures
            p.block_number == block_number,
            p.price == price,
            p.public == public,
    {
        PricePayload { block_number, price, public }
    }

    /// The key that signed the payload.
    pub fn public(&self) -> (public: [u8; 32])
        ensures
            public == self.public,
    {
        self.public
    }
}

/// The calls of this pallet.
#[derive(Clone, Copy, Debug, PartialEq, Eq)]
pub enum Call {
    SubmitPrice { price: u32 },
    SubmitPriceUnsigned { block_number: BlockNumber, price: u32 },
    SubmitPriceUnsignedWithSignedPayload { price_payload: PricePayload, signature: [u8; 64] },
}

/// The errors of the off-chain worker.
#[derive(Clone, Copy, Debug, PartialEq, Eq, Structural)]
pub enum Error {
    UnknownOffchainMux,
    NoLocalAcctForSigning,
    OffchainSignedTxError,
    OffchainUnsignedTxError,
    OffchainUnsignedTxSignedPayloadError,
    HttpFetchingError,
}

/// What a price submission records.
#[derive(Clone, Copy, Debug, PartialEq, Eq, Structural)]
pub enum Event {
    NewPrice { price: u32, who: AccountId },
}

/// Why the transaction pool refuses an unsigned transaction.
#[derive(Clone, Copy, Debug, PartialEq, Eq, Structural)]
pub enum InvalidTransaction {
    Call,
    Stale,
    Future,
    BadProof,
}

/// How the pool treats an accepted unsigned transaction: its priority, the
/// tag it provides (under `TAG_PREFIX`), how many blocks it stays valid,
/// and whether it is gossiped.
#[derive(Clone, Copy, Debug, PartialEq, Eq, Structural)]
pub struct ValidTransaction {
    pub priority: u64,
    pub provides: BlockNumber,
    pub longevity: u64,
    pub propagate: bool,
}

pub type TransactionValidity = Result<ValidTransaction, InvalidTransaction>;

/// Which transaction the off-chain worker sends in a run.
#[derive(Clone, Copy, Debug, PartialEq, Eq, Structural)]
pub enum TransactionType {
    Signed,
    UnsignedForAny,
    UnsignedForAll,
    Raw,
    NoTransaction,
}

/// A stored value could not be decoded.
#[derive(Clone, Copy, Debug, PartialEq, Eq, Structural)]
pub enum StorageRetrievalError {
    Undecodable,
}

/// Why an update of the worker's local storage did not happen: another
/// worker changed the value first (the value that was meant to be
/// written), or the update refused.
#[derive(Clone, Copy, Debug, PartialEq, Eq, Structural)]
pub enum MutateStorageError {
    ConcurrentModification(BlockNumber),
    ValueFunctionFailed,
}

/// Why the off-chain worker sent nothing.
#[derive(Clone, Copy, Debug, PartialEq, Eq, Structural)]
pub enum SendError {
    NoLocalAccounts,
    FetchFailed,
    TooEarly,
    UnsignedSubmitFailed,
    NoAccountsAvailable,
    SubmitFailed,
}

impl SendError {
    /// The message of the error.
    pub fn message(&self) -> (m: &'static str)
        ensures
            m@ == (match self {
                SendError::NoLocalAccounts => "No local accounts available. Consider adding one via `author_insertKey` RPC."@,
                SendError::FetchFailed => "Failed to fetch price"@,
                SendError::TooEarly => "Too early to send unsigned transaction"@,
                SendError::UnsignedSubmitFailed => "Unable to submit unsigned transaction."@,
                SendError::NoAccountsAvailable => "No local accounts accounts available."@,
                SendError::SubmitFailed => "Unable to submit transaction"@,
            }),
    {
        match self {
            SendError::NoLocalAccounts => "No local accounts available. Consider adding one via `author_insertKey` RPC.",
            SendError::FetchFailed => "Failed to fetch price",
            SendError::TooEarly => "Too early to send unsigned transaction",
            SendError::UnsignedSubmitFailed => "Unable to submit unsigned transaction.",
            SendError::NoAccountsAvailable => "No local accounts accounts available.",
            SendError::SubmitFailed => "Unable to submit transaction",
        }
    }
}

/// What the runtime provides to the pallet: the check of a signed payload
/// against its key. The runtime implements it: `payload_verifies` says
/// which signatures it accepts, and `verify_payload` is bound to it.
pub trait Config {
    /// Whether `signature` is a valid signature of `payload` by its key.
    spec fn payload_verifies(&self, payload: PricePayload, signature: [u8; 64]) -> bool;

    fn verify_payload(&self, payload: &PricePayload, signature: &[u8; 64]) -> (valid: bool)
        ensures
            valid == self.payload_verifies(*payload, *signature),
    ;
}

/// Whether the runtime accepts the signature of `call`; true for a call
/// without one.
pub open spec fn call_signature_valid<C: Config>(rt: C, call: Call) -> bool {
    match call {
        Call::SubmitPriceUnsignedWithSignedPayload { price_payload, signature } => rt.payload_verifies(
            price_payload,
            signature,
        ),
        _ => true,
    }
}

/// The pallet's storage and constants.
pub struct Pallet {
    prices: Vec<u32>,
    next_unsigned_at: BlockNumber,
    events: Vec<Event>,
    grace_period: BlockNumber,
    unsigned_interval: BlockNumber,
    unsigned_priority: u64,
}

/// The abstract state of the pallet.
pub struct OcwStorage {
    /// Recent prices, at most `MAX_LEN` of them.
    pub prices: Seq<u32>,
    /// The first block in which an unsigned submission is accepted.
    pub next_unsigned_at: BlockNumber,
    pub events: Seq<Event>,
    /// How many blocks the worker waits after sending.
    pub grace_period: BlockNumber,
    /// How many blocks must pass between unsigned submissions.
    pub unsigned_interval: BlockNumber,
    /// The base priority of unsigned submissions.
    pub unsigned_priority: u64,
}

impl View for Pallet {
    type V = OcwStorage;

    closed spec fn view(&self) -> OcwStorage {
        OcwStorage {
            prices: self.prices@,
            next_unsigned_at: self.next_unsigned_at,
            events: self.events@,
            grace_period: self.grace_period,
            unsigned_interval: self.unsigned_interval,
            unsigned_priority: self.unsigned_priority,
        }
    }
}

/// The list of prices after `price` is added: appended while there is
/// room, else written over the entry at `price % MAX_LEN`.
pub open spec fn prices_after_add(prices: Seq<u32>, price: u32) -> Seq<u32> {
    if prices.len() < MAX_LEN {
        prices.push(price)
    } else {
        prices.update(price as int % MAX_LEN as int, price)
    }
}

/// The sum of the prices.
pub open spec fn sum_of(prices: Seq<u32>) -> nat
    decreases prices.len(),
{
    if prices.len() == 0 {
        0
    } else {
        (sum_of(prices.drop_last()) + prices.last()) as nat
    }
}

/// The average of the prices, rounded down; `None` for no prices.
pub open spec fn average_of(prices: Seq<u32>) -> Option<u32> {
    if prices.len() == 0 {
        None
    } else {
        Some((sum_of(prices) / prices.len()) as u32)
    }
}

/// The distance between two prices.
pub open spec fn price_distance(a: u32, b: u32) -> u32 {
    if a > b {
        (a - b) as u32
    } else {
        (b - a) as u32
    }
}

/// The tag under which the last send is recorded in the worker's local
/// storage decides whether a run may send: not within the grace period
/// after the block recorded there.
pub open spec fn last_send_outcome(
    last_send: Result<Option<BlockNumber>, StorageRetrievalError>,
    block_number: BlockNumber,
    grace_period: BlockNumber,
) -> Result<BlockNumber, ()> {
    match last_send {
        Ok(Some(block)) => if block_number < block + grace_period {
            Err(())
        } else {
            Ok(block_number)
        },
        _ => Ok(block_number),
    }
}

/// The transaction type for an update of the local storage: by the block
/// number modulo three when the update went through, none otherwise.
pub open spec fn transaction_type_of(mutated: Result<BlockNumber, MutateStorageError>) -> TransactionType {
    match mutated {
        Ok(block_number) => if block_number % 3 == 0 {
            TransactionType::Signed
        } else if block_number % 3 == 1 {
            TransactionType::UnsignedForAny
        } else if block_number % 3 == 2 {
            TransactionType::UnsignedForAll
        } else {
            TransactionType::Raw
        },
        Err(_) => TransactionType::NoTransaction,
    }
}

impl OcwStorage {
    pub open spec fn wf(self) -> bool {
        self.prices.len() <= MAX_LEN
    }

    /// The storage after `who` submits `price`.
    pub open spec fn with_price(self, who: AccountId, price: u32) -> OcwStorage {
        OcwStorage {
            prices: prices_after_add(self.prices, price),
            events: self.events.push(Event::NewPrice { price, who }),
            ..self
        }
    }

    /// The storage after an unsigned submission of `price` in block
    /// `current_block`: the price is recorded under the default account,
    /// and the next unsigned submission is accepted `unsigned_interval`
    /// blocks later.
    pub open spec fn with_unsigned_price(self, price: u32, current_block: BlockNumber) -> OcwStorage {
        OcwStorage {
            next_unsigned_at: (current_block + self.unsigned_interval) as u64,
            ..self.with_price(DEFAULT_ACCOUNT, price)
        }
    }

    /// What an unsigned submission of `price` from `origin` in block
    /// `current_block` answers, and the storage after it.
    pub open spec fn unsigned_submission(self, origin: Origin, price: u32, current_block: BlockNumber) -> (
        Result<(), BadOrigin>,
        OcwStorage,
    ) {
        match origin {
            Origin::Unsigned => (Ok(()), self.with_unsigned_price(price, current_block)),
            _ => (Err(BadOrigin), self),
        }
    }

    /// How the pool treats an unsigned submission of `new_price` for
    /// `block_number`, in block `current_block`.
    pub open spec fn validity(self, current_block: BlockNumber, block_number: BlockNumber, new_price: u32) -> TransactionValidity {
        if self.next_unsigned_at > block_number {
            Err(InvalidTransaction::Stale)
        } else if current_block < block_number {
            Err(InvalidTransaction::Future)
        } else {
            let distance: u32 = match average_of(self.prices) {
                Some(avg) => price_distance(avg, new_price),
                None => 0,
            };
            Ok(
                ValidTransaction {
                    priority: if self.unsigned_priority + distance > u64::MAX {
                        u64::MAX
                    } else {
                        (self.unsigned_priority + distance) as u64
                    },
                    provides: self.next_unsigned_at,
                    longevity: 5,
                    propagate: true,
                },
            )
        }
    }

    /// How the pool treats `call` as an unsigned transaction, given whether
    /// its payload signature checks out.
    pub open spec fn call_validity(self, call: Call, current_block: BlockNumber, signature_valid: bool) -> TransactionValidity {
        match call {
            Call::SubmitPriceUnsignedWithSignedPayload { price_payload, signature } => if !signature_valid {
                Err(InvalidTransaction::BadProof)
            } else {
                self.validity(current_block, price_payload.block_number, price_payload.price)
            },
            Call::SubmitPriceUnsigned { block_number, price } => self.validity(current_block, block_number, price),
            Call::SubmitPrice { .. } => Err(InvalidTransaction::Call),
        }
    }
}

impl Pallet {
    /// An empty price list with the given grace period, interval between
    /// unsigned submissions and base priority.
    pub fn new(grace_period: BlockNumber, unsigned_interval: BlockNumber, unsigned_priority: u64) -> (p: Pallet)
        ensures
            p@.wf(),
            p@.prices.len() == 0,
            p@.next_unsigned_at == 0,
            p@.events.len() == 0,
            p@.grace_period == grace_period,
            p@.unsigned_interval == unsigned_interval,
            p@.unsigned_priority == unsigned_priority,
    {
        Pallet {
            prices: Vec::new(),
            next_unsigned_at: 0,
            events: Vec::new(),
            grace_period,
            unsigned_interval,
            unsigned_priority,
        }
    }

    /// The recent prices.
    pub fn prices(&self) -> (prices: Vec<u32>)
        ensures
            prices@ == self@.prices,
    {
        let mut copy: Vec<u32> = Vec::new();
        let n = self.prices.len();
        for i in 0..n
            invariant
                n == self.prices@.len(),
                copy@ == self.prices@.take(i as int),
        {
            copy.push(self.prices[i]);
            assert(copy@ =~= self.prices@.take(i + 1));
        }
        assert(copy@ =~= self.prices@);
        copy
    }

    /// The first block in which an unsigned submission is accepted.
    pub fn next_unsigned_at(&self) -> (b: BlockNumber)
        ensures
            b == self@.next_unsigned_at,
    {
        self.next_unsigned_at
    }

    /// The events recorded so far, oldest first.
    pub fn events(&self) -> (events: Vec<Event>)
        ensures
            events@ == self@.events,
    {
        let mut copy: Vec<Event> = Vec::new();
        let n = self.events.len();
        for i in 0..n
            invariant
                n == self.events@.len(),
                copy@ == self.events@.take(i as int),
        {
            copy.push(self.events[i]);
            assert(copy@ =~= self.events@.take(i + 1));
        }
        assert(copy@ =~= self.events@);
        copy
    }

    /// The grace period of the off-chain worker.
    pub fn grace_period(&self) -> (g: BlockNumber)
        ensures
            g == self@.grace_period,
    {
        self.grace_period
    }

    /// Adds `price`, submitted by `who`, to the list.
    fn add_price(&mut self, who: AccountId, price: u32)
        requires
            old(self)@.wf(),
        ensures
            final(self)@ == old(self)@.with_price(who, price),
            final(self)@.wf(),
    {
        if self.prices.len() < MAX_LEN {
            self.prices.push(price);
        } else {
            self.prices.set((price as usize) % MAX_LEN, price);
        }
        self.events.push(Event::NewPrice { price, who });
    }

    /// The average of the recent prices; `None` when there are none.
    pub fn average_price(&self) -> (avg: Option<u32>)
        requires
            self@.wf(),
        ensures
            avg == average_of(self@.prices),
    {
        if self.prices.is_empty() {
            None
        } else {
            let n = self.prices.len();
            let mut sum: u64 = 0;
            for i in 0..n
                invariant
                    n == self.prices@.len(),
                    n <= MAX_LEN,
                    sum == sum_of(self.prices@.take(i as int)),
                    sum_of(self.prices@.take(i as int)) <= i * (u32::MAX as int),
            {
                assert(self.prices@.take(i + 1).drop_last() =~= self.prices@.take(i as int));
                assert(self.prices@.take(i + 1).last() == self.prices@[i as int]);
                sum = sum + self.prices[i] as u64;
            }
            assert(self.prices@.take(n as int) =~= self.prices@);
            proof {
                vstd::arithmetic::div_mod::lemma_div_is_ordered(sum as int, n * (u32::MAX as int), n as int);
                vstd::arithmetic::div_mod::lemma_div_multiples_vanish(u32::MAX as int, n as int);
                assert(n * (u32::MAX as int) == (u32::MAX as int) * n) by (nonlinear_arith);
            }
            let avg = sum / (n as u64);
            Some(avg as u32)
        }
    }

    /// Records a price submitted by a signed transaction.
    pub fn submit_price(&mut self, origin: Origin, price: u32) -> (r: Result<(), BadOrigin>)
        requires
            old(self)@.wf(),
        ensures
            final(self)@.wf(),
            match origin {
                Origin::Signed(who) => r is Ok && final(self)@ == old(self)@.with_price(who, price),
                _ => r is Err && final(self)@ == old(self)@,
            },
    {
        let who = match ensure_signed(origin) {
            Ok(a) => a,
            Err(e) => {
                return Err(e);
            },
        };
        self.add_price(who, price);
        Ok(())
    }

    /// Records a price submitted by an unsigned transaction in block
    /// `current_block`; the next unsigned submission is accepted
    /// `unsigned_interval` blocks later.
    pub fn submit_price_unsigned(
        &mut self,
        origin: Origin,
        _block_number: BlockNumber,
        price: u32,
        current_block: BlockNumber,
    ) -> (r: Result<(), BadOrigin>)
        requires
            old(self)@.wf(),
            current_block + old(self)@.unsigned_interval <= u64::MAX,
        ensures
            final(self)@.wf(),
            (r, final(self)@) == old(self)@.unsigned_submission(origin, price, current_block),
    {
        if let Err(e) = ensure_none(origin) {
            return Err(e);
        }
        self.add_price(DEFAULT_ACCOUNT, price);
        self.next_unsigned_at = current_block + self.unsigned_interval;
        Ok(())
    }

    /// Records the price of a signed payload submitted by an unsigned
    /// transaction in block `current_block`; the next unsigned submission
    /// is accepted `unsigned_interval` blocks later.
    pub fn submit_price_unsigned_with_signed_payload(
        &mut self,
        origin: Origin,
        price_payload: PricePayload,
        _signature: [u8; 64],
        current_block: BlockNumber,
    ) -> (r: Result<(), BadOrigin>)
        requires
            old(self)@.wf(),
            current_block + old(self)@.unsigned_interval <= u64::MAX,
        ensures
            final(self)@.wf(),
            (r, final(self)@) == old(self)@.unsigned_submission(origin, price_payload.price, current_block),
    {
        if let Err(e) = ensure_none(origin) {
            return Err(e);
        }
        self.add_price(DEFAULT_ACCOUNT, price_payload.price);
        self.next_unsigned_at = current_block + self.unsigned_interval;
        Ok(())
    }

    /// How the pool treats an unsigned submission of `new_price` for
    /// `block_number` in block `current_block`: stale before the next
    /// accepted block, refused for a future block, else prioritized by the
    /// distance of the price from the current average.
    pub fn validate_transaction_parameters(
        &self,
        current_block: BlockNumber,
        block_number: &BlockNumber,
        new_price: &u32,
    ) -> (validity: TransactionValidity)
        requires
            self@.wf(),
        ensures
            validity == self@.validity(current_block, *block_number, *new_price),
    {
        let next_unsigned_at = self.next_unsigned_at;
        if next_unsigned_at > *block_number {
            return Err(InvalidTransaction::Stale);
        }
        if current_block < *block_number {
            return Err(InvalidTransaction::Future);
        }
        let avg_price: u32 = match self.average_price() {
            Some(price) => if price > *new_price {
                price - *new_price
            } else {
                *new_price - price
            },
            None => 0,
        };
        Ok(
            ValidTransaction {
                priority: self.unsigned_priority.saturating_add(avg_price as u64),
                provides: next_unsigned_at,
                longevity: 5,
                propagate: true,
            },
        )
    }

    /// How the pool treats `call` as an unsigned transaction in block
    /// `current_block`, given whether its payload signature checks out.
    pub fn validate_unsigned_call(&self, call: &Call, current_block: BlockNumber, signature_valid: bool) -> (validity: TransactionValidity)
        requires
            self@.wf(),
        ensures
            validity == self@.call_validity(*call, current_block, signature_valid),
    {
        match call {
            Call::SubmitPriceUnsignedWithSignedPayload { price_payload, signature: _ } => {
                if !signature_valid {
                    return Err(InvalidTransaction::BadProof);
                }
                self.validate_transaction_parameters(current_block, &price_payload.block_number, &price_payload.price)
            },
            Call::SubmitPriceUnsigned { block_number, price } => {
                self.validate_transaction_parameters(current_block, block_number, price)
            },
            Call::SubmitPrice { .. } => Err(InvalidTransaction::Call),
        }
    }

    /// How the pool treats `call` as an unsigned transaction in block
    /// `current_block`: only the two unsigned submissions are accepted, the
    /// one with a signed payload only if the runtime finds its signature
    /// valid.
    pub fn validate_unsigned<C: Config>(&self, rt: &C, current_block: BlockNumber, call: &Call) -> (validity: TransactionValidity)
        requires
            self@.wf(),
        ensures
            validity == self@.call_validity(*call, current_block, call_signature_valid(*rt, *call)),
    {
        let signature_valid = match call {
            Call::SubmitPriceUnsignedWithSignedPayload { price_payload, signature } => rt.verify_payload(price_payload, signature),
            _ => true,
        };
        self.validate_unsigned_call(call, current_block, signature_valid)
    }

    /// Whether an unsigned transaction may be sent in `block_number`: not
    /// before the next accepted block.
    pub fn unsigned_send_window(&self, block_number: BlockNumber) -> (r: Result<(), SendError>)
        ensures
            r == (if self@.next_unsigned_at > block_number {
                Err(SendError::TooEarly)
            } else {
                Ok(())
            }),
    {
        if self.next_unsigned_at > block_number {
            Err(SendError::TooEarly)
        } else {
            Ok(())
        }
    }
}

/// The update of the worker's local record of its last send: refused
/// within the grace period after the recorded block, else the current
/// block is to be recorded.
pub fn last_send_check(
    last_send: Result<Option<BlockNumber>, StorageRetrievalError>,
    block_number: BlockNumber,
    grace_period: BlockNumber,
) -> (r: Result<BlockNumber, ()>)
    requires
        last_send matches Ok(Some(block)) ==> block + grace_period <= u64::MAX,
    ensures
        r == last_send_outcome(last_send, block_number, grace_period),
{
    match last_send {
        Ok(Some(block)) => if block_number < block + grace_period {
            Err(())
        } else {
            Ok(block_number)
        },
        _ => Ok(block_number),
    }
}

/// The transaction type for the outcome of updating the record of the last
/// send.
pub fn choose_transaction_type(mutated: Result<BlockNumber, MutateStorageError>) -> (t: TransactionType)
    ensures
        t == transaction_type_of(mutated),
{
    match mutated {
        Ok(block_number) => {
            let transaction_type = block_number % 3;
            if transaction_type == 0 {
                TransactionType::Signed
            } else if transaction_type == 1 {
                TransactionType::UnsignedForAny
            } else if transaction_type == 2 {
                TransactionType::UnsignedForAll
            } else {
                TransactionType::Raw
            }
        },
        Err(MutateStorageError::ValueFunctionFailed) => TransactionType::NoTransaction,
        Err(MutateStorageError::ConcurrentModification(_)) => TransactionType::NoTransaction,
    }
}

/// Whether every account's submission went through.
pub fn all_submitted(results: &Vec<Result<(), ()>>) -> (r: Result<(), SendError>)
    ensures
        r is Ok <==> forall|i: int| 0 <= i < results@.len() ==> results@[i] is Ok,
        r is Err ==> r == Err::<(), SendError>(SendError::SubmitFailed),
{
    let n = results.len();
    for i in 0..n
        invariant
            n == results@.len(),
            forall|j: int| 0 <= j < i ==> results@[j] is Ok,
    {
        if results[i].is_err() {
            return Err(SendError::SubmitFailed);
        }
    }
    Ok(())
}

/// The body of a response to the remote request, if its status is 200.
pub fn remote_response_body(code: u16, body: Vec<u8>) -> (r: Result<Vec<u8>, Error>)
    ensures
        code == 200 ==> (r matches Ok(b) && b@ == body@),
        code != 200 ==> r == Err::<Vec<u8>, Error>(Error::HttpFetchingError),
{
    if code != 200 {
        return Err(Error::HttpFetchingError);
    }
    Ok(body)
}

} // verus!
