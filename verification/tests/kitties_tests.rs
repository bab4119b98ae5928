use std::collections::HashMap;

use pallets::frame::Origin;
use pallets::kitties::{Config, DispatchError, Error, Gender, GenesisConfig, Kitty, Pallet};

const MAX_KITTY_OWNED: u32 = 3;
const RESERVE_FOR_CREATE_KITTY: u64 = 1_000;
const EXISTENTIAL_DEPOSIT: u64 = 1;

struct Test {
    free: HashMap<u64, u64>,
    reserved: HashMap<u64, u64>,
    block: u64,
}

impl Config for Test {
    fn random_of(&self, subject: &[u8]) -> [u8; 32] {
        let mut out = [0u8; 32];
        for (i, b) in subject.iter().enumerate() {
            out[i % 32] ^= *b;
        }
        out[31] = self.block as u8;
        out
    }

    fn current_block(&self) -> u64 {
        self.block
    }

    fn free(&self, who: u64) -> u64 {
        *self.free.get(&who).unwrap_or(&0)
    }

    fn reserved(&self, who: u64) -> u64 {
        *self.reserved.get(&who).unwrap_or(&0)
    }

    fn reserve_granted(&self, who: u64, value: u64) -> bool {
        Config::free(self, who) >= value
    }

    fn transfer_granted(&self, source: u64, _dest: u64, value: u64) -> bool {
        let free = Config::free(self, source);
        free >= value && free - value >= EXISTENTIAL_DEPOSIT
    }

    fn random(&self, subject: &[u8]) -> [u8; 32] {
        self.random_of(subject)
    }

    fn block_number(&self) -> u64 {
        self.current_block()
    }

    fn free_balance(&self, who: u64) -> u64 {
        Config::free(self, who)
    }

    fn reserve(&mut self, who: u64, value: u64) -> Result<(), ()> {
        if !self.reserve_granted(who, value) {
            return Err(());
        }
        let free = self.free_balance(who);
        self.free.insert(who, free - value);
        *self.reserved.entry(who).or_insert(0) += value;
        Ok(())
    }

    fn transfer(&mut self, source: u64, dest: u64, value: u64) -> Result<(), ()> {
        if !self.transfer_granted(source, dest, value) {
            return Err(());
        }
        let free = self.free_balance(source);
        self.free.insert(source, free - value);
        let to = self.free_balance(dest);
        self.free.insert(dest, to + value);
        Ok(())
    }
}

fn new_test_ext() -> (Pallet, Test) {
    let mut free = HashMap::new();
    free.insert(1, 10_000);
    free.insert(2, 10_000);
    free.insert(10, 10_000);
    let rt = Test { free, reserved: HashMap::new(), block: 1 };
    let mut pallet = Pallet::new(MAX_KITTY_OWNED, RESERVE_FOR_CREATE_KITTY);
    GenesisConfig {
        kitties: vec![
            (1, *b"1234567890123456", Gender::Female),
            (2, *b"123456789012345a", Gender::Male),
        ],
    }
    .build(&rt, &mut pallet);
    (pallet, rt)
}

type Snapshot = (Option<u32>, Vec<Option<Kitty>>, Vec<Vec<u32>>, usize, Vec<(u64, u64)>);

fn snapshot(p: &Pallet, rt: &Test) -> Snapshot {
    let cnt = p.kitty_cnt();
    let kitties = (0..=20u32).chain([12345, 54321]).map(|id| p.kitties(id)).collect();
    let owned = (0..=20u64).map(|a| p.kitties_owned(a)).collect();
    let balances = (0..=20u64)
        .map(|a| (*rt.free.get(&a).unwrap_or(&0), *rt.reserved.get(&a).unwrap_or(&0)))
        .collect();
    (cnt, kitties, owned, p.events().len(), balances)
}

fn assert_noop(before: &Snapshot, p: &Pallet, rt: &Test, r: Result<(), DispatchError>, e: Error) {
    assert_eq!(r, Err(DispatchError::Module(e)));
    assert_eq!(*before, snapshot(p, rt));
}

#[test]
fn should_build_genesis_kitties() {
    let (p, _rt) = new_test_ext();
    assert_eq!(p.kitty_cnt(), 2u32.into());

    let kitties_owned_by_1 = p.kitties_owned(1);
    assert_eq!(kitties_owned_by_1.len(), 1);

    let kitties_owned_by_2 = p.kitties_owned(2);
    assert_eq!(kitties_owned_by_2.len(), 1);

    let kid1 = kitties_owned_by_1[0];
    let kitty1 = p.kitties(kid1).expect("Could have this kitty ID owned by acct 1");
    assert_eq!(kitty1.owner, 1);

    let kid2 = kitties_owned_by_2[0];
    let kitty2 = p.kitties(kid2).expect("Could have this kitty ID owned by acct 2");
    assert_eq!(kitty2.owner, 2);
}

#[test]
fn tests_create_kitty_should_work() {
    let (mut p, mut rt) = new_test_ext();
    assert_eq!(p.create_kitty(&mut rt, Origin::signed(1)), Ok(()));

    assert_eq!(p.kitty_cnt(), 3u32.into());
    assert_eq!(p.kitties_owned(1).len(), 2);

    assert_eq!(p.kitties_owned(5).len(), 0);

    let hash = p.kitties_owned(1)[1];
    let kitty = p.kitties(hash).expect("should found the kitty");
    assert_eq!(kitty.owner, 1);
    assert_eq!(kitty.price, None);
}

#[test]
fn set_price_should_work() {
    let (mut p, _rt) = new_test_ext();
    let kitty_id = p.kitties_owned(1)[0];
    assert_eq!(p.set_price(Origin::signed(1), kitty_id, Some(1)), Ok(()));
    assert_eq!(p.kitties(kitty_id).unwrap().price, Some(1));
}

#[test]
fn set_price_not_own_should_fail() {
    let (mut p, rt) = new_test_ext();
    let kitty_id = p.kitties_owned(1)[0];
    let before = snapshot(&p, &rt);
    let r = p.set_price(Origin::signed(2), kitty_id, Some(1));
    assert_noop(&before, &p, &rt, r, Error::NotKittyOwner);
}

#[test]
fn buy_kitty_should_work() {
    let (mut p, mut rt) = new_test_ext();
    let kitty_id = p.kitties_owned(1)[0];
    assert_eq!(p.set_price(Origin::signed(1), kitty_id, Some(1)), Ok(()));
    assert_eq!(p.buy_kitty(&mut rt, Origin::signed(2), kitty_id, 1), Ok(()));
}

#[test]
fn buy_kitty_is_owner_should_fail() {
    let (mut p, mut rt) = new_test_ext();
    let kitty_id = p.kitties_owned(1)[0];
    assert_eq!(p.set_price(Origin::signed(1), kitty_id, Some(1)), Ok(()));
    let before = snapshot(&p, &rt);
    let r = p.buy_kitty(&mut rt, Origin::signed(1), kitty_id, 1);
    assert_noop(&before, &p, &rt, r, Error::BuyerIsKittyOwner);
}

#[test]
fn buy_kitty_low_price_should_fail() {
    let (mut p, mut rt) = new_test_ext();
    let kitty_id = p.kitties_owned(1)[0];
    assert_eq!(p.set_price(Origin::signed(1), kitty_id, Some(2)), Ok(()));
    let before = snapshot(&p, &rt);
    let r = p.buy_kitty(&mut rt, Origin::signed(2), kitty_id, 1);
    assert_noop(&before, &p, &rt, r, Error::KittyBidPriceTooLow);
}

#[test]
fn buy_kitty_not_enough_balance_should_fail() {
    let (mut p, mut rt) = new_test_ext();
    let kitty_id = p.kitties_owned(1)[0];
    assert_eq!(p.set_price(Origin::signed(1), kitty_id, Some(2)), Ok(()));
    let before = snapshot(&p, &rt);
    let r = p.buy_kitty(&mut rt, Origin::signed(2), kitty_id, 200_000);
    assert_noop(&before, &p, &rt, r, Error::NotEnoughBalance);
}

#[test]
fn tests_transfer_kitty_should_work() {
    let (mut p, _rt) = new_test_ext();
    let kitty_id = p.kitties_owned(1)[0];

    assert_eq!(p.transfer(Origin::signed(1), 3, kitty_id), Ok(()));
    assert_eq!(p.kitties_owned(1).len(), 0);
    assert_eq!(p.kitties_owned(3).len(), 1);
    let new_id = p.kitties_owned(3)[0];
    assert_eq!(kitty_id, new_id);
}

#[test]
fn transfer_kitty_to_self_should_fail() {
    let (mut p, rt) = new_test_ext();
    let kitty_id = p.kitties_owned(1)[0];
    let before = snapshot(&p, &rt);
    let r = p.transfer(Origin::signed(1), 1, kitty_id);
    assert_noop(&before, &p, &rt, r, Error::TransferToSelf);
}

#[test]
fn tests_transfer_non_owned_kitty_should_fail() {
    let (mut p, rt) = new_test_ext();
    let hash = p.kitties_owned(1)[0];
    let before = snapshot(&p, &rt);
    let r = p.transfer(Origin::signed(9), 2, hash);
    assert_noop(&before, &p, &rt, r, Error::NotKittyOwner);
}

#[test]
fn breed_kitty_should_work() {
    let (mut p, mut rt) = new_test_ext();
    assert_eq!(p.create_kitty(&mut rt, Origin::signed(1)), Ok(()));
    let kitty_id1 = p.kitties_owned(1)[0];
    let kitty_id2 = p.kitties_owned(1)[1];

    assert_eq!(p.breed_kitty(&mut rt, Origin::signed(1), kitty_id1, kitty_id2), Ok(()));
    assert_eq!(p.kitties_owned(1).len(), 3);
}

#[test]
fn breed_kitty_not_own_should_fail() {
    let (mut p, mut rt) = new_test_ext();
    let kitty_id1 = 12345;
    let kitty_id2 = 54321;
    let before = snapshot(&p, &rt);
    let r = p.breed_kitty(&mut rt, Origin::signed(1), kitty_id1, kitty_id2);
    assert_noop(&before, &p, &rt, r, Error::KittyNotExist);
}

#[test]
fn create_kitty_not_enough_balance_should_fail() {
    let (mut p, mut rt) = new_test_ext();
    let before = snapshot(&p, &rt);
    let r = p.create_kitty(&mut rt, Origin::signed(3));
    assert_noop(&before, &p, &rt, r, Error::InvalidReserveAmount);
}
