use kitties::genome::{combine, gen_gender, Gender};
use kitties::ledger::{Ledger, LedgerError};
use kitties::pallet::{Config, DispatchError, Entropy, Error, Event, GenesisConfig, Pallet};

const ALICE: u64 = 1;
const BOB: u64 = 2;
const COCO: u64 = 3;
const KITTY_DEPOSIT: u64 = 10;
const MIN_BALANCE: u64 = 1;
const ENDOWMENT: u64 = 100_000;

fn module_err(e: Error) -> Result<(), DispatchError> {
    Err(DispatchError::Module(e))
}

fn ledger_err(e: LedgerError) -> Result<(), DispatchError> {
    Err(DispatchError::Ledger(e))
}

fn entropy(tag: u8) -> Entropy {
    Entropy { dna: [tag; 16], gender: tag }
}

/// A registry as the test genesis builds it: ALICE and BOB endowed, each
/// owning one genesis kitty (ids 0 and 1), COCO penniless.
fn new_test_ext() -> Pallet {
    let mut ledger = Ledger::new(MIN_BALANCE);
    ledger.set_balance(ALICE, ENDOWMENT, 0);
    ledger.set_balance(BOB, ENDOWMENT, 0);
    let mut pallet = Pallet::new(Config { kitty_deposit: KITTY_DEPOSIT }, ledger);
    let genesis = GenesisConfig {
        kitties: vec![(ALICE, [1u8; 16], Gender::Male), (BOB, [2u8; 16], Gender::Female)],
    };
    genesis.build(&mut pallet);
    pallet
}

fn has_event(pallet: &Pallet, event: Event) -> bool {
    pallet.events().contains(&event)
}

#[test]
fn should_build_genesis_kitties() {
    let pallet = new_test_ext();

    // Check we have 2 kitties, as specified
    assert_eq!(pallet.kitty_cnt(), 2);

    // Check owners own the correct amount of kitties
    let kitties_owned_by_1 = pallet.kitties_owned(0);
    assert_eq!(kitties_owned_by_1, Some(ALICE));

    let kitties_owned_by_2 = pallet.kitties_owned(1);
    assert_eq!(kitties_owned_by_2, Some(BOB));

    // Check that kitties are owned correctly
    let kitty1 = pallet.kitties(0).expect("Could have this kitty ID owned by acct 1");
    assert_eq!(kitty1.owner, ALICE);

    let kitty2 = pallet.kitties(1).expect("Could have this kitty ID owned by acct 2");
    assert_eq!(kitty2.owner, BOB);
}

#[test]
fn create_kitty_unit_test() {
    let mut pallet = new_test_ext();

    // should failed, InsufficientBalance
    assert_eq!(
        pallet.create_kitty(COCO, &entropy(4)),
        ledger_err(LedgerError::InsufficientBalance)
    );

    pallet.ledger.set_balance(COCO, 10000, 0);

    // should work
    assert!(pallet.create_kitty(COCO, &entropy(4)).is_ok());

    // Event log
    assert!(has_event(&pallet, Event::Created(COCO, 2)));

    // check that 3 kitties exists (together with the two from genesis)
    assert_eq!(pallet.kitty_cnt(), 3);

    // check that account COCO owns 1 kitty
    assert_eq!(pallet.kitties_owned(2), Some(COCO));

    // check that this kitty is specifically owned by account COCO
    let kitty = pallet.kitties(2).expect("should found the kitty");
    assert_eq!(kitty.owner, COCO);
    assert_eq!(kitty.price, None);

    // check COCO reserved balance after create new kitty
    assert_eq!(KITTY_DEPOSIT, pallet.ledger.reserved_balance(COCO));
}

#[test]
fn transfer_kitty_unit_test() {
    let mut pallet = new_test_ext();

    pallet.ledger.set_balance(COCO, 1000, 0);

    // should failed, kitty is not exist
    assert_eq!(pallet.transfer(ALICE, COCO, 3), module_err(Error::KittyNotExist));

    // should failed, wrong owner
    assert_eq!(pallet.transfer(ALICE, COCO, 1), module_err(Error::NotKittyOwner));

    // should failed, can not transfer to self
    assert_eq!(pallet.transfer(ALICE, ALICE, 0), module_err(Error::TransferToSelf));

    // should work
    assert!(pallet.transfer(ALICE, COCO, 0).is_ok());

    // Event log
    assert!(has_event(&pallet, Event::Transferred(ALICE, COCO, 0)));

    // check new owner of kitty
    assert_eq!(pallet.kitties_owned(0), Some(COCO));
    let kitty = pallet.kitties(0).expect("should found the kitty");
    assert_eq!(kitty.owner, COCO);
}

#[test]
fn sell_kitty_unit_test() {
    let mut pallet = new_test_ext();

    // should failed, kitty is not exist
    assert_eq!(pallet.sell_kitty(ALICE, 3, Some(100)), module_err(Error::KittyNotExist));

    // should failed, wrong owner
    assert_eq!(pallet.sell_kitty(ALICE, 1, Some(100)), module_err(Error::NotKittyOwner));

    // should work
    assert!(pallet.sell_kitty(ALICE, 0, Some(100)).is_ok());

    // Event log
    assert!(has_event(&pallet, Event::PriceSet(ALICE, 0, Some(100))));

    // check new price of kitty
    let kitty = pallet.kitties(0).expect("should found the kitty");
    assert_eq!(kitty.price, Some(100));
}

#[test]
fn buy_kitty_unit_test() {
    let mut pallet = new_test_ext();

    // should failed, Buyer cannot be the owner.
    assert_eq!(pallet.buy_kitty(ALICE, 0, 50), module_err(Error::BuyerIsKittyOwner));

    // should failed, kitty is not exist
    assert_eq!(pallet.buy_kitty(BOB, 2, 50), module_err(Error::KittyNotExist));

    // should failed, kitty is not for sale
    assert_eq!(pallet.buy_kitty(BOB, 0, 50), module_err(Error::KittyNotForSale));

    // set price
    assert!(pallet.sell_kitty(ALICE, 0, Some(110000)).is_ok());

    // should failed, the bid price is too low
    assert_eq!(pallet.buy_kitty(BOB, 0, 50), module_err(Error::KittyBidPriceTooLow));

    // should failed, buyer is not enough balance
    assert_eq!(pallet.buy_kitty(BOB, 0, 110000), module_err(Error::NotEnoughBalance));

    // set price
    assert!(pallet.sell_kitty(ALICE, 0, Some(100)).is_ok());

    // should work
    assert!(pallet.buy_kitty(BOB, 0, 150).is_ok());

    // Event log
    assert!(has_event(&pallet, Event::Bought(BOB, ALICE, 0, 150)));

    // check kitty information
    let kitty = pallet.kitties(0).expect("should found the kitty");
    assert_eq!(kitty.owner, BOB);
    assert_eq!(kitty.price, None);
}

#[test]
fn breed_kitty_unit_test() {
    let mut pallet = new_test_ext();

    // should failed, kitty is not exist
    assert_eq!(pallet.breed_kitty(ALICE, 0, 2, &entropy(9)), module_err(Error::KittyNotExist));

    // should failed, wrong owner
    assert_eq!(pallet.breed_kitty(ALICE, 0, 1, &entropy(9)), module_err(Error::NotKittyOwner));

    assert!(pallet.transfer(BOB, ALICE, 1).is_ok());

    // should work
    assert!(pallet.breed_kitty(ALICE, 0, 1, &entropy(9)).is_ok());

    // Event log
    assert!(has_event(&pallet, Event::BreedKitty(ALICE, 0, 1, 2)));

    // check new price of kitty
    let kitty = pallet.kitties(2).expect("should found the kitty");
    assert_eq!(kitty.price, None);
    assert_eq!(kitty.owner, ALICE);
}

#[test]
fn sell_same_price_twice_is_idempotent() {
    let mut pallet = new_test_ext();

    assert!(pallet.sell_kitty(ALICE, 0, Some(250)).is_ok());
    let price_after_first = pallet.kitties(0).unwrap().price;
    let alice_free = pallet.ledger.free_balance(ALICE);
    let alice_reserved = pallet.ledger.reserved_balance(ALICE);

    assert!(pallet.sell_kitty(ALICE, 0, Some(250)).is_ok());
    assert_eq!(pallet.kitties(0).unwrap().price, price_after_first);
    assert_eq!(pallet.kitties(0).unwrap().price, Some(250));

    // no balance movement from listing
    assert_eq!(pallet.ledger.free_balance(ALICE), alice_free);
    assert_eq!(pallet.ledger.reserved_balance(ALICE), alice_reserved);
}

#[test]
fn ownership_index_agrees_with_store() {
    let mut pallet = new_test_ext();
    assert!(pallet.sell_kitty(ALICE, 0, Some(100)).is_ok());
    assert!(pallet.buy_kitty(BOB, 0, 100).is_ok());
    assert!(pallet.transfer(BOB, ALICE, 1).is_ok());

    let count = pallet.kitty_cnt();
    let mut id: u64 = 0;
    while id < count {
        let stored = pallet.kitties(id).unwrap().owner;
        let indexed = pallet.kitties_owned(id).unwrap();
        assert_eq!(stored, indexed);
        id += 1;
    }
}

#[test]
fn transfer_to_self_always_fails() {
    let mut pallet = new_test_ext();

    // on an owned kitty
    assert_eq!(pallet.transfer(ALICE, ALICE, 0), module_err(Error::TransferToSelf));
    // on a kitty the sender does not own
    assert_eq!(pallet.transfer(COCO, COCO, 0), module_err(Error::TransferToSelf));
    // even on a kitty that does not exist
    assert_eq!(pallet.transfer(ALICE, ALICE, 77), module_err(Error::TransferToSelf));
}

#[test]
fn price_reset_on_ownership_change() {
    let mut pallet = new_test_ext();

    // listed, then transferred: the listing is cleared
    assert!(pallet.sell_kitty(ALICE, 0, Some(500)).is_ok());
    assert!(pallet.transfer(ALICE, BOB, 0).is_ok());
    assert_eq!(pallet.kitties(0).unwrap().price, None);

    // listed, then bought: the listing is cleared
    assert!(pallet.sell_kitty(BOB, 1, Some(40)).is_ok());
    assert!(pallet.buy_kitty(ALICE, 1, 40).is_ok());
    assert_eq!(pallet.kitties(1).unwrap().price, None);
}

#[test]
fn bid_below_ask_is_rejected() {
    let mut pallet = new_test_ext();

    assert!(pallet.sell_kitty(ALICE, 0, Some(100)).is_ok());
    assert_eq!(pallet.buy_kitty(BOB, 0, 0), module_err(Error::KittyBidPriceTooLow));
    assert_eq!(pallet.buy_kitty(BOB, 0, 99), module_err(Error::KittyBidPriceTooLow));
    // the ask itself meets the floor
    assert!(pallet.buy_kitty(BOB, 0, 100).is_ok());
}

#[test]
fn combine_takes_each_bit_from_a_parent() {
    let mask = [0xF0u8; 16];
    let parent_a = [0xAAu8; 16];
    let parent_b = [0x0Fu8; 16];
    let child = combine(&mask, &parent_a, &parent_b);
    // high nibble from parent a, low nibble from parent b
    assert_eq!(child, [0xAFu8; 16]);

    let mask2 = [0x00u8; 16];
    let child2 = combine(&mask2, &parent_a, &parent_b);
    assert_eq!(child2, parent_b);

    let mask3 = [0xFFu8; 16];
    let child3 = combine(&mask3, &parent_a, &parent_b);
    assert_eq!(child3, parent_a);

    // no bit absent from both parents ever appears
    let mut i = 0;
    while i < 16 {
        assert_eq!(child[i] & !(parent_a[i] | parent_b[i]), 0);
        i += 1;
    }
}

#[test]
fn gender_follows_entropy_parity() {
    assert_eq!(gen_gender(0), Gender::Male);
    assert_eq!(gen_gender(7), Gender::Female);

    let mut pallet = new_test_ext();
    pallet.ledger.set_balance(COCO, 1000, 0);
    let even = Entropy { dna: [3u8; 16], gender: 8 };
    assert!(pallet.create_kitty(COCO, &even).is_ok());
    assert_eq!(pallet.kitties(2).unwrap().gender, Gender::Male);
    let odd = Entropy { dna: [3u8; 16], gender: 9 };
    assert!(pallet.create_kitty(COCO, &odd).is_ok());
    assert_eq!(pallet.kitties(3).unwrap().gender, Gender::Female);
}

#[test]
fn bred_kitty_mixes_parent_genomes() {
    let mut pallet = new_test_ext();
    assert!(pallet.transfer(BOB, ALICE, 1).is_ok());

    let mask = Entropy { dna: [0xF0u8; 16], gender: 0 };
    assert!(pallet.breed_kitty(ALICE, 0, 1, &mask).is_ok());

    // parents carry [1; 16] and [2; 16]: high nibble from kitty 0, low from kitty 1
    let child = pallet.kitties(2).unwrap();
    assert_eq!(child.dna, [(0xF0 & 1) | (0x0F & 2); 16]);
    assert_eq!(child.dna, [2u8; 16]);
}

#[test]
fn deposit_total_conserved_by_transfer_and_buy() {
    let mut pallet = new_test_ext();
    pallet.ledger.set_balance(COCO, 1000, 0);

    let total_before = pallet.ledger.reserved_balance(ALICE) + pallet.ledger.reserved_balance(BOB)
        + pallet.ledger.reserved_balance(COCO);
    assert_eq!(total_before, 2 * KITTY_DEPOSIT);

    assert!(pallet.transfer(ALICE, COCO, 0).is_ok());
    let total_after_transfer = pallet.ledger.reserved_balance(ALICE)
        + pallet.ledger.reserved_balance(BOB) + pallet.ledger.reserved_balance(COCO);
    assert_eq!(total_after_transfer, total_before);

    assert!(pallet.sell_kitty(BOB, 1, Some(100)).is_ok());
    assert!(pallet.buy_kitty(COCO, 1, 100).is_ok());
    let total_after_buy = pallet.ledger.reserved_balance(ALICE)
        + pallet.ledger.reserved_balance(BOB) + pallet.ledger.reserved_balance(COCO);
    assert_eq!(total_after_buy, total_before);

    // a fresh mint reserves exactly one more deposit
    assert!(pallet.create_kitty(COCO, &entropy(5)).is_ok());
    let total_after_create = pallet.ledger.reserved_balance(ALICE)
        + pallet.ledger.reserved_balance(BOB) + pallet.ledger.reserved_balance(COCO);
    assert_eq!(total_after_create, total_before + KITTY_DEPOSIT);
}

#[test]
fn scenario_listing_bids_and_sale() {
    let mut pallet = new_test_ext();

    assert!(pallet.sell_kitty(ALICE, 0, Some(100)).is_ok());
    assert_eq!(pallet.kitties(0).unwrap().price, Some(100));

    assert_eq!(pallet.buy_kitty(BOB, 0, 50), module_err(Error::KittyBidPriceTooLow));

    let alice_free = pallet.ledger.free_balance(ALICE);
    let bob_free = pallet.ledger.free_balance(BOB);
    let alice_reserved = pallet.ledger.reserved_balance(ALICE);
    let bob_reserved = pallet.ledger.reserved_balance(BOB);

    assert!(pallet.buy_kitty(BOB, 0, 150).is_ok());
    assert_eq!(pallet.kitties(0).unwrap().owner, BOB);
    assert_eq!(pallet.kitties(0).unwrap().price, None);
    assert_eq!(pallet.ledger.free_balance(ALICE), alice_free + 150);
    assert_eq!(pallet.ledger.free_balance(BOB), bob_free - 150);
    assert_eq!(pallet.ledger.reserved_balance(ALICE), alice_reserved - KITTY_DEPOSIT);
    assert_eq!(pallet.ledger.reserved_balance(BOB), bob_reserved + KITTY_DEPOSIT);
}

#[test]
fn scenario_create_without_balance_changes_nothing() {
    let mut pallet = new_test_ext();

    assert_eq!(
        pallet.create_kitty(COCO, &entropy(4)),
        ledger_err(LedgerError::InsufficientBalance)
    );

    assert_eq!(pallet.kitty_cnt(), 2);
    assert_eq!(pallet.kitties(2), None);
    assert_eq!(pallet.kitties_owned(2), None);
    assert_eq!(pallet.ledger.free_balance(COCO), 0);
    assert_eq!(pallet.ledger.reserved_balance(COCO), 0);
    assert!(!has_event(&pallet, Event::Created(COCO, 2)));
}

#[test]
fn scenario_breed_not_owning_second_parent_changes_nothing() {
    let mut pallet = new_test_ext();

    let kitty0 = pallet.kitties(0).unwrap();
    let kitty1 = pallet.kitties(1).unwrap();

    assert_eq!(pallet.breed_kitty(ALICE, 0, 1, &entropy(9)), module_err(Error::NotKittyOwner));

    assert_eq!(pallet.kitty_cnt(), 2);
    assert_eq!(pallet.kitties(0), Some(kitty0));
    assert_eq!(pallet.kitties(1), Some(kitty1));
    assert_eq!(pallet.kitties(2), None);
}

#[test]
fn transfer_without_reserved_deposit_fails() {
    let mut pallet = new_test_ext();

    // wipe ALICE's reservation out from under the escrowed deposit
    pallet.ledger.set_balance(ALICE, 1000, 0);
    assert_eq!(pallet.transfer(ALICE, BOB, 0), ledger_err(LedgerError::InsufficientReserved));
}

#[test]
fn buy_that_would_kill_the_buyer_fails() {
    let mut pallet = new_test_ext();

    assert!(pallet.sell_kitty(ALICE, 0, Some(100)).is_ok());
    // BOB can pay the bid but would be left below the minimum balance
    pallet.ledger.set_balance(BOB, 150, 0);
    assert_eq!(pallet.buy_kitty(BOB, 0, 150), ledger_err(LedgerError::BelowMinimum));
    // with one unit above the bid the purchase goes through
    pallet.ledger.set_balance(BOB, 151, 0);
    assert!(pallet.buy_kitty(BOB, 0, 150).is_ok());
}

#[test]
fn buy_overflowing_the_seller_fails() {
    let mut pallet = new_test_ext();

    assert!(pallet.sell_kitty(ALICE, 0, Some(1)).is_ok());
    pallet.ledger.set_balance(ALICE, u64::MAX, KITTY_DEPOSIT);
    assert_eq!(pallet.buy_kitty(BOB, 0, 5), ledger_err(LedgerError::Overflow));
}

#[test]
fn ledger_reserve_and_repatriate_move_exact_amounts() {
    let mut ledger = Ledger::new(MIN_BALANCE);
    ledger.set_balance(ALICE, 100, 0);

    assert_eq!(ledger.reserve(ALICE, 30), Ok(()));
    assert_eq!(ledger.free_balance(ALICE), 70);
    assert_eq!(ledger.reserved_balance(ALICE), 30);

    assert_eq!(ledger.reserve(ALICE, 71), Err(LedgerError::InsufficientBalance));

    assert_eq!(ledger.repatriate_reserved(ALICE, BOB, 40, true), Err(LedgerError::InsufficientReserved));
    assert_eq!(ledger.repatriate_reserved(ALICE, BOB, 30, true), Ok(()));
    assert_eq!(ledger.reserved_balance(ALICE), 0);
    assert_eq!(ledger.reserved_balance(BOB), 30);

    assert_eq!(ledger.transfer(ALICE, BOB, 70, true), Err(LedgerError::BelowMinimum));
    assert_eq!(ledger.transfer(ALICE, BOB, 69, true), Ok(()));
    assert_eq!(ledger.free_balance(ALICE), 1);
    assert_eq!(ledger.free_balance(BOB), 69);
}
