//! Laws that relate the public operations to each other.
//!
//! Each law is stated over the post-state predicates that the operations'
//! contracts establish, so it holds of any two states an operation actually
//! connects.

use vstd::prelude::*;

use crate::pallet::{Kitty, Pallet};

verus! {

/// Listing an item repeatedly at the same price is idempotent: a second
/// listing leaves the item store — the ask price included — exactly as the
/// first left it, and neither listing moves any balance.
pub proof fn lemma_sell_idempotent(
    s0: Pallet,
    s1: Pallet,
    s2: Pallet,
    kitty_id: u64,
    who: u64,
    price: Option<u64>,
)
    requires
        s0.has_kitty(kitty_id),
        Pallet::price_set_post(s0, s1, kitty_id, who, price),
        Pallet::price_set_post(s1, s2, kitty_id, who, price),
    ensures
        s2.kitties@ == s1.kitties@,
        s2.kitties@[kitty_id as int].price == s1.kitties@[kitty_id as int].price,
        s2.ledger == s0.ledger,
        s2.kitties_owned@ == s0.kitties_owned@,
        s2.kitty_cnt == s0.kitty_cnt,
{
    assert(s2.kitties@ =~= s1.kitties@);
}

/// Ownership is exclusive and the two records of it agree: every existing item
/// has exactly one owner, the one its store record names, and the ownership
/// index names the same account for it.
pub proof fn lemma_ownership_agreement(s: Pallet)
    requires
        s.wf(),
    ensures
        s.kitties_owned@.len() == s.kitties@.len(),
        forall|i: int|
            0 <= i < s.kitties@.len() ==> #[trigger] s.kitties_owned@[i] == s.kitties@[i].owner,
{
}

/// A successful transfer moves the item's deposit between reserved balances
/// but conserves the total reserved balance across all accounts.
pub proof fn lemma_transfer_conserves_deposits(
    pre: Pallet,
    post: Pallet,
    kitty_id: u64,
    who: u64,
    new_owner: u64,
)
    requires
        Pallet::transfer_ok_post(pre, post, kitty_id, who, new_owner),
    ensures
        post.ledger.total_reserved() == pre.ledger.total_reserved(),
{
}

/// A successful purchase pays the bid out of free balance and moves the
/// deposit between reserved balances, conserving the total reserved balance.
pub proof fn lemma_buy_conserves_deposits(
    pre: Pallet,
    post: Pallet,
    kitty_id: u64,
    who: u64,
    bid: u64,
)
    requires
        Pallet::buy_ok_post(pre, post, kitty_id, who, bid),
    ensures
        post.ledger.total_reserved() == pre.ledger.total_reserved(),
{
}

/// Each successful minting — by creation or by breeding — grows the total
/// reserved balance by exactly one configured deposit.
pub proof fn lemma_mint_adds_one_deposit(pre: Pallet, post: Pallet, owner: u64, k: Kitty)
    requires
        Pallet::minted_post(pre, post, owner, k),
    ensures
        post.ledger.total_reserved() == pre.ledger.total_reserved()
            + pre.config.kitty_deposit,
{
}

} // verus!
