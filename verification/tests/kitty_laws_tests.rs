use std::collections::HashMap;

use pallets::frame::Origin;
use pallets::kitties::{Config, DispatchError, Error, Event, Gender, GenesisConfig, Kitty, Pallet};

const MAX_KITTY_OWNED: u32 = 3;
const RESERVE_FOR_CREATE_KITTY: u64 = 1_000;
const EXISTENTIAL_DEPOSIT: u64 = 1;

struct Test {
    free: HashMap<u64, u64>,
    reserved: HashMap<u64, u64>,
    block: u64,
}

impl Config for Test {
    fn random_of(&self, subject: &[u8]) -> [u8; 32] {
        let mut out = [0u8; 32];
        for (i, b) in subject.iter().enumerate() {
            out[i % 32] ^= *b;
        }
        out[31] = self.block as u8;
        out
    }

    fn current_block(&self) -> u64 {
        self.block
    }

    fn free(&self, who: u64) -> u64 {
        *self.free.get(&who).unwrap_or(&0)
    }

    fn reserved(&self, who: u64) -> u64 {
        *self.reserved.get(&who).unwrap_or(&0)
    }

    fn reserve_granted(&self, who: u64, value: u64) -> bool {
        Config::free(self, who) >= value
    }

    fn transfer_granted(&self, source: u64, _dest: u64, value: u64) -> bool {
        let free = Config::free(self, source);
        free >= value && free - value >= EXISTENTIAL_DEPOSIT
    }

    fn random(&self, subject: &[u8]) -> [u8; 32] {
        self.random_of(subject)
    }

    fn block_number(&self) -> u64 {
        self.current_block()
    }

    fn free_balance(&self, who: u64) -> u64 {
        Config::free(self, who)
    }

    fn reserve(&mut self, who: u64, value: u64) -> Result<(), ()> {
        if !self.reserve_granted(who, value) {
            return Err(());
        }
        let free = self.free_balance(who);
        self.free.insert(who, free - value);
        *self.reserved.entry(who).or_insert(0) += value;
        Ok(())
    }

    fn transfer(&mut self, source: u64, dest: u64, value: u64) -> Result<(), ()> {
        if !self.transfer_granted(source, dest, value) {
            return Err(());
        }
        let free = self.free_balance(source);
        self.free.insert(source, free - value);
        let to = self.free_balance(dest);
        self.free.insert(dest, to + value);
        Ok(())
    }
}

fn new_test_ext() -> (Pallet, Test) {
    let mut free = HashMap::new();
    free.insert(1, 10_000);
    free.insert(2, 10_000);
    free.insert(10, 10_000);
    let rt = Test { free, reserved: HashMap::new(), block: 1 };
    let mut pallet = Pallet::new(MAX_KITTY_OWNED, RESERVE_FOR_CREATE_KITTY);
    GenesisConfig {
        kitties: vec![
            (1, *b"1234567890123456", Gender::Female),
            (2, *b"123456789012345a", Gender::Male),
        ],
    }
    .build(&rt, &mut pallet);
    (pallet, rt)
}

type Snapshot = (Option<u32>, Vec<Option<Kitty>>, Vec<Vec<u32>>, usize, Vec<(u64, u64)>);

fn snapshot(p: &Pallet, rt: &Test) -> Snapshot {
    let cnt = p.kitty_cnt();
    let kitties = (0..=20u32).chain([12345, 54321]).map(|id| p.kitties(id)).collect();
    let owned = (0..=20u64).map(|a| p.kitties_owned(a)).collect();
    let balances = (0..=20u64)
        .map(|a| (*rt.free.get(&a).unwrap_or(&0), *rt.reserved.get(&a).unwrap_or(&0)))
        .collect();
    (cnt, kitties, owned, p.events().len(), balances)
}

fn assert_noop(before: &Snapshot, p: &Pallet, rt: &Test, r: Result<(), DispatchError>, e: Error) {
    assert_eq!(r, Err(DispatchError::Module(e)));
    assert_eq!(*before, snapshot(p, rt));
}

#[test]
fn dna_is_blake2_of_seed_and_block() {
    let mut seed = [0u8; 32];
    for (i, b) in seed.iter_mut().enumerate() {
        *b = i as u8;
    }
    assert_eq!(
        Pallet::dna_from_seed(seed, 7),
        [72, 241, 106, 186, 153, 244, 54, 229, 161, 169, 154, 198, 227, 61, 30, 22]
    );
}

#[test]
fn gender_follows_first_byte() {
    let mut seed = [0u8; 32];
    assert_eq!(Pallet::gender_from_seed(&seed), Gender::Male);
    seed[0] = 3;
    assert_eq!(Pallet::gender_from_seed(&seed), Gender::Female);
}

#[test]
fn mixed_dna_takes_bits_by_selector() {
    let child = Pallet::mix_dna(&[0xF0; 16], &[0xAA; 16], &[0x55; 16]);
    assert_eq!(child, [0xA5; 16]);
}

#[test]
fn bred_kitty_keeps_shared_bits() {
    let (mut p, mut rt) = new_test_ext();
    let dna1 = p.kitties(1).unwrap().dna;
    let dna2 = p.kitties(2).unwrap().dna;
    assert_eq!(p.transfer(Origin::signed(2), 1, 2), Ok(()));
    assert_eq!(p.breed_kitty(&mut rt, Origin::signed(1), 1, 2), Ok(()));
    let child = p.kitties(3).unwrap();
    assert_eq!(child.owner, 1);
    assert_eq!(child.price, None);
    for i in 0..16 {
        assert_eq!(child.dna[i] & (dna1[i] & dna2[i]), dna1[i] & dna2[i]);
        assert_eq!(child.dna[i] & !(dna1[i] | dna2[i]), 0);
    }
}

#[test]
fn transfer_moves_exactly_one_kitty() {
    let (mut p, mut rt) = new_test_ext();
    assert_eq!(p.create_kitty(&mut rt, Origin::signed(1)), Ok(()));
    assert_eq!(p.kitties_owned(1), vec![1, 3]);
    let before = p.kitties(1).unwrap();
    assert_eq!(p.transfer(Origin::signed(1), 2, 1), Ok(()));
    // the last entry takes the place of the one that leaves
    assert_eq!(p.kitties_owned(1), vec![3]);
    assert_eq!(p.kitties_owned(2), vec![2, 1]);
    assert_eq!(p.kitties(1).unwrap(), Kitty { owner: 2, ..before });
    assert_eq!(p.kitty_cnt(), Some(3));
    assert_eq!(*p.events().last().unwrap(), Event::Transferred(1, 2, 1));
}

#[test]
fn created_kitty_takes_next_index() {
    let (mut p, mut rt) = new_test_ext();
    assert_eq!(p.create_kitty(&mut rt, Origin::signed(10)), Ok(()));
    assert_eq!(p.kitties_owned(10), vec![3]);
    assert_eq!(p.events(), vec![Event::Created(10, 3)]);
    assert_eq!(rt.free_balance(10), 10_000 - RESERVE_FOR_CREATE_KITTY);
}

#[test]
fn buying_moves_kitty_and_funds() {
    let (mut p, mut rt) = new_test_ext();
    assert_eq!(p.set_price(Origin::signed(1), 1, Some(100)), Ok(()));
    assert_eq!(p.buy_kitty(&mut rt, Origin::signed(2), 1, 150), Ok(()));
    let kitty = p.kitties(1).unwrap();
    assert_eq!(kitty.owner, 2);
    // the asking price stays
    assert_eq!(kitty.price, Some(100));
    assert_eq!(p.kitties_owned(1), Vec::<u32>::new());
    assert_eq!(p.kitties_owned(2), vec![2, 1]);
    assert_eq!(rt.free_balance(2), 10_000 - 150);
    assert_eq!(rt.free_balance(1), 10_000 + 150);
    assert_eq!(
        p.events(),
        vec![Event::PriceSet(1, 1, Some(100)), Event::Bought(2, 1, 1, 150)]
    );
}

#[test]
fn buying_unpriced_kitty_fails() {
    let (mut p, mut rt) = new_test_ext();
    let before = snapshot(&p, &rt);
    let r = p.buy_kitty(&mut rt, Origin::signed(2), 1, 5);
    assert_noop(&before, &p, &rt, r, Error::KittyNotForSale);
    let r = p.buy_kitty(&mut rt, Origin::signed(2), 99, 5);
    assert_noop(&before, &p, &rt, r, Error::KittyNotExist);
}

#[test]
fn refused_currency_transfer_changes_nothing() {
    let (mut p, mut rt) = new_test_ext();
    assert_eq!(p.set_price(Origin::signed(1), 1, Some(10_000)), Ok(()));
    let before = snapshot(&p, &rt);
    // the whole free balance would not keep the buyer alive
    assert_eq!(p.buy_kitty(&mut rt, Origin::signed(2), 1, 10_000), Err(DispatchError::Currency));
    assert_eq!(before, snapshot(&p, &rt));
}

#[test]
fn owners_are_limited() {
    let (mut p, mut rt) = new_test_ext();
    assert_eq!(p.create_kitty(&mut rt, Origin::signed(2)), Ok(()));
    assert_eq!(p.create_kitty(&mut rt, Origin::signed(2)), Ok(()));
    assert_eq!(p.kitties_owned(2).len(), 3);
    let before = snapshot(&p, &rt);
    let free = rt.free_balance(2);
    let r = p.create_kitty(&mut rt, Origin::signed(2));
    assert_eq!(r, Err(DispatchError::Module(Error::ExceedMaxKittyOwned)));
    // the kitties are as they were; the deposit was reserved before minting failed
    let after = snapshot(&p, &rt);
    assert_eq!((&before.0, &before.1, &before.2, before.3), (&after.0, &after.1, &after.2, after.3));
    assert_eq!(rt.free_balance(2), free - RESERVE_FOR_CREATE_KITTY);
    let before = after;
    let r = p.transfer(Origin::signed(1), 2, 1);
    assert_noop(&before, &p, &rt, r, Error::ExceedMaxKittyOwned);
    assert_eq!(p.set_price(Origin::signed(1), 1, Some(1)), Ok(()));
    let before = snapshot(&p, &rt);
    let r = p.buy_kitty(&mut rt, Origin::signed(2), 1, 1);
    assert_noop(&before, &p, &rt, r, Error::ExceedMaxKittyOwned);
}

#[test]
fn unsigned_origin_is_refused() {
    let (mut p, mut rt) = new_test_ext();
    let before = snapshot(&p, &rt);
    assert_eq!(p.create_kitty(&mut rt, Origin::none()), Err(DispatchError::BadOrigin));
    assert_eq!(p.set_price(Origin::Root, 1, None), Err(DispatchError::BadOrigin));
    assert_eq!(p.transfer(Origin::none(), 2, 1), Err(DispatchError::BadOrigin));
    assert_eq!(p.buy_kitty(&mut rt, Origin::none(), 1, 1), Err(DispatchError::BadOrigin));
    assert_eq!(p.breed_kitty(&mut rt, Origin::none(), 1, 2), Err(DispatchError::BadOrigin));
    assert_eq!(before, snapshot(&p, &rt));
}

#[test]
fn breeding_needs_both_parents_owned() {
    let (mut p, mut rt) = new_test_ext();
    let before = snapshot(&p, &rt);
    let r = p.breed_kitty(&mut rt, Origin::signed(1), 1, 2);
    assert_noop(&before, &p, &rt, r, Error::NotKittyOwner);
    assert_eq!(p.is_kitty_owner(&1, &1), Ok(true));
    assert_eq!(p.is_kitty_owner(&2, &1), Ok(false));
    assert_eq!(p.is_kitty_owner(&7, &1), Err(Error::KittyNotExist));
}

#[test]
fn genesis_skips_kitties_over_the_limit() {
    let rt = Test { free: HashMap::new(), reserved: HashMap::new(), block: 1 };
    let mut p = Pallet::new(2, 5);
    GenesisConfig {
        kitties: vec![
            (4, [1; 16], Gender::Male),
            (4, [2; 16], Gender::Female),
            (4, [3; 16], Gender::Male),
            (5, [4; 16], Gender::Female),
        ],
    }
    .build(&rt, &mut p);
    assert_eq!(p.kitty_cnt(), Some(3));
    assert_eq!(p.kitties_owned(4), vec![1, 2]);
    assert_eq!(p.kitties_owned(5), vec![3]);
    assert_eq!(p.kitties(3), Some(Kitty { dna: [4; 16], price: None, gender: Gender::Female, owner: 5 }));
    assert!(GenesisConfig::default().kitties.is_empty());
}

#[test]
fn setting_a_price_changes_only_the_price() {
    let (mut p, _rt) = new_test_ext();
    let before = p.kitties(1).unwrap();
    let other = p.kitties(2);
    assert_eq!(p.set_price(Origin::signed(1), 1, Some(42)), Ok(()));
    assert_eq!(p.kitties(1).unwrap(), Kitty { price: Some(42), ..before });
    assert_eq!(p.kitties(2), other);
    assert_eq!(p.kitties_owned(1), vec![1]);
    assert_eq!(p.kitty_cnt(), Some(2));
    assert_eq!(p.events(), vec![Event::PriceSet(1, 1, Some(42))]);
}

#[test]
fn creation_reserves_the_deposit_of_the_creator() {
    let (mut p, mut rt) = new_test_ext();
    assert_eq!(p.create_kitty(&mut rt, Origin::signed(10)), Ok(()));
    assert_eq!(*rt.reserved.get(&10).unwrap(), RESERVE_FOR_CREATE_KITTY);
    assert_eq!(rt.free_balance(10), 10_000 - RESERVE_FOR_CREATE_KITTY);
    assert_eq!(rt.free_balance(1), 10_000);
    assert_eq!(rt.reserved.get(&1), None);
}

#[test]
fn created_kitty_takes_drawn_dna_and_gender() {
    let (mut p, mut rt) = new_test_ext();
    let dna = Pallet::gen_dna(&rt);
    let gender = Pallet::gen_gender(&rt);
    assert_eq!(gender, Pallet::gender_from_seed(&rt.random(b"gender")));
    assert_eq!(dna, Pallet::dna_from_seed(rt.random(b"dna"), rt.block_number()));
    assert_eq!(p.create_kitty(&mut rt, Origin::signed(10)), Ok(()));
    let kitty = p.kitties(3).unwrap();
    assert_eq!(kitty.dna, dna);
    assert_eq!(kitty.gender, gender);
}

#[test]
fn transferring_back_restores_the_kitties() {
    let (mut p, mut rt) = new_test_ext();
    assert_eq!(p.create_kitty(&mut rt, Origin::signed(1)), Ok(()));
    let before = snapshot(&p, &rt);
    assert_eq!(p.transfer(Origin::signed(1), 2, 1), Ok(()));
    assert_eq!(p.transfer(Origin::signed(2), 1, 1), Ok(()));
    let after = snapshot(&p, &rt);
    assert_eq!(before.0, after.0);
    assert_eq!(before.1, after.1);
    // the lists hold the same ids, in another order where a kitty was swapped out
    assert_eq!(p.kitties_owned(1), vec![3, 1]);
    assert_eq!(p.kitties_owned(2), vec![2]);
    let mut listed_before: Vec<u32> = before.2.concat();
    let mut listed_after: Vec<u32> = after.2.concat();
    listed_before.sort();
    listed_after.sort();
    assert_eq!(listed_before, listed_after);
}
