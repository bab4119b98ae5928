use std::collections::HashMap;

use pallets::frame::Origin;
use pallets::kitties::{Config, DispatchError, Error, Gender, GenesisConfig, Kitty, Pallet};

const MAX_KITTY_OWNED: u32 = 3;
const RESERVE_FOR_CREATE_KITTY: u64 = 1_000;
const EXISTENTIAL_DEPOSIT: u64 = 1;

struct Test {
    free: HashMap<u64, u64>,
    reserved: HashMap<u64, u64>,
    block: u64,
}

impl Config for Test {
    fn random_of(&self, subject: &[u8]) -> [u8; 32] {
        let mut out = [0u8; 32];
        for (i, b) in subject.iter().enumerate() {
            out[i % 32] ^= *b;
        }
        out[31] = self.block as u8;
        out
    }

    fn current_block(&self) -> u64 {
        self.block
    }

    fn free(&self, who: u64) -> u64 {
        *self.free.get(&who).unwrap_or(&0)
    }

    fn reserved(&self, who: u64) -> u64 {
        *self.reserved.get(&who).unwrap_or(&0)
    }

    fn reserve_granted(&self, who: u64, value: u64) -> bool {
        Config::free(self, who) >= value
    }

    fn transfer_granted(&self, source: u64, _dest: u64, value: u64) -> bool {
        let free = Config::free(self, source);
        free >= value && free - value >= EXISTENTIAL_DEPOSIT
    }

    fn random(&self, subject: &[u8]) -> [u8; 32] {
        self.random_of(subject)
    }

    fn block_number(&self) -> u64 {
        self.current_block()
    }

    fn free_balance(&self, who: u64) -> u64 {
        Config::free(self, who)
    }

    fn reserve(&mut self, who: u64, value: u64) -> Result<(), ()> {
        if !self.reserve_granted(who, value) {
            return Err(());
        }
        let free = self.free_balance(who);
        self.free.insert(who, free - value);
        *self.reserved.entry(who).or_insert(0) += value;
        Ok(())
    }

    fn transfer(&mut self, source: u64, dest: u64, value: u64) -> Result<(), ()> {
        if !self.transfer_granted(source, dest, value) {
            return Err(());
        }
        let free = self.free_balance(source);
        self.free.insert(source, free - value);
        let to = self.free_balance(dest);
        self.free.insert(dest, to + value);
        Ok(())
    }
}

fn new_test_ext() -> (Pallet, Test) {
    let mut free = HashMap::new();
    free.insert(1, 10_000);
    free.insert(2, 10_000);
    free.insert(10, 10_000);
    let rt = Test { free, reserved: HashMap::new(), block: 1 };
    let mut pallet = Pallet::new(MAX_KITTY_OWNED, RESERVE_FOR_CREATE_KITTY);
    GenesisConfig {
        kitties: vec![
            (1, *b"1234567890123456", Gender::Female),
            (2, *b"123456789012345a", Gender::Male),
        ],
    }
    .build(&rt, &mut pallet);
    (pallet, rt)
}

type Snapshot = (Option<u32>, Vec<Option<Kitty>>, Vec<Vec<u32>>, usize, Vec<(u64, u64)>);

fn snapshot(p: &Pallet, rt: &Test) -> Snapshot {
    let cnt = p.kitty_cnt();
    let kitties = (0..=20u32).chain([12345, 54321]).map(|id| p.kitties(id)).collect();
    let owned = (0..=20u64).map(|a| p.kitties_owned(a)).collect();
    let balances = (0..=20u64)
        .map(|a| (*rt.free.get(&a).unwrap_or(&0), *rt.reserved.get(&a).unwrap_or(&0)))
        .collect();
    (cnt, kitties, owned, p.events().len(), balances)
}

fn assert_noop(before: &Snapshot, p: &Pallet, rt: &Test, r: Result<(), DispatchError>, e: Error) {
    assert_eq!(r, Err(DispatchError::Module(e)));
    assert_eq!(*before, snapshot(p, rt));
}

#[test]
fn create_kitty_works() {
    let (mut p, mut rt) = new_test_ext();
    assert_eq!(p.create_kitty(&mut rt, Origin::signed(10)), Ok(()));

    // check that 3 kitties exists (together with the two from genesis)
    assert_eq!(p.kitty_cnt(), Some(3));

    // check that account #10 owns 1 kitty
    assert_eq!(p.kitties_owned(10).len(), 1);

    // check that some random account #5 does not own a kitty
    assert_eq!(p.kitties_owned(5).len(), 0);

    // check that this kitty is specifically owned by account #10
    let hash = p.kitties_owned(10)[0];
    let kitty = p.kitties(hash).expect("should found the kitty");
    assert_eq!(kitty.owner, 10);
    assert_eq!(kitty.price, None);
}

#[test]
fn get_kitty_works() {
    let (_p, _rt) = new_test_ext();
}

#[test]
fn mutate_price_works() {
    let (_p, _rt) = new_test_ext();
}

#[test]
fn transfer_works() {
    let (_p, _rt) = new_test_ext();
}

#[test]
fn buy_kitty_works() {
    let (_p, _rt) = new_test_ext();
}

#[test]
fn breed_kitty_works() {
    let (_p, _rt) = new_test_ext();
}

#[test]
fn test_create_kitty_should_work() {
    let (mut p, mut rt) = new_test_ext();
    // create a kitty with account #10.
    assert_eq!(p.create_kitty(&mut rt, Origin::signed(10)), Ok(()));

    // check that 3 kitties exists (together with the two from genesis)
    assert_eq!(p.kitty_cnt(), Some(3));

    // check that account #10 owns 1 kitty
    assert_eq!(p.kitties_owned(10).len(), 1);

    // check that some random account #5 does not own a kitty
    assert_eq!(p.kitties_owned(5).len(), 0);

    // check that this kitty is specifically owned by account #10
    let hash = p.kitties_owned(10)[0];
    let kitty = p.kitties(hash).expect("should found the kitty");
    assert_eq!(kitty.owner, 10);
    assert_eq!(kitty.price, None);
}

#[test]
fn test_transfer_kitty_should_work() {
    let (mut p, mut rt) = new_test_ext();
    // check that acct 10 own a kitty
    assert_eq!(p.create_kitty(&mut rt, Origin::signed(10)), Ok(()));
    assert_eq!(p.kitties_owned(10).len(), 1);
    let hash = p.kitties_owned(10)[0];

    // acct 10 send kitty to acct 3
    assert_eq!(p.transfer(Origin::signed(10), 3, hash), Ok(()));

    // acct 10 now has nothing
    assert_eq!(p.kitties_owned(10).len(), 0);
    // but acct 3 does
    assert_eq!(p.kitties_owned(3).len(), 1);
    let new_hash = p.kitties_owned(3)[0];
    // and it has the same hash
    assert_eq!(hash, new_hash);
}

#[test]
fn test_transfer_non_owned_kitty_should_fail() {
    let (mut p, rt) = new_test_ext();
    let hash = p.kitties_owned(1)[0];

    // account 0 cannot transfer a kitty with this hash.
    let before = snapshot(&p, &rt);
    let r = p.transfer(Origin::signed(9), 2, hash);
    assert_noop(&before, &p, &rt, r, Error::NotKittyOwner);
}
