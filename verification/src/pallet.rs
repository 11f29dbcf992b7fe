//! The registry of kitties and its exchange engine.
//!
//! A `Pallet` holds the item store, the ownership index kept in lockstep with
//! it, the ledger, and the record of notifications. Items are numbered by a
//! monotonic counter and never destroyed, so the store and the index are rows
//! by item number. Every public operation either succeeds with the state
//! change its contract describes, or fails with a typed error and leaves the
//! whole state exactly as it was.

use vstd::prelude::*;

use crate::genome::{gen_gender, spec_combine, spec_gender_of, Gender};
use crate::ledger::{repatriate_effect, reserve_effect, Ledger, LedgerError};

verus! {

/// One tracked item.
#[derive(Clone, Copy, PartialEq, Eq, Debug)]
pub struct Kitty {
    /// The 16-byte trait encoding; immutable once minted.
    pub dna: [u8; 16],
    /// The ask price; `None` means not for sale. Cleared on every ownership
    /// change.
    pub price: Option<u64>,
    /// Assigned at minting, immutable.
    pub gender: Gender,
    /// The one current owner.
    pub owner: u64,
    /// The amount escrowed with the item, reserved from its owner's balance.
    pub deposit: u64,
}

/// What the registry is configured with.
#[derive(Clone, Copy, PartialEq, Eq, Structural, Debug)]
pub struct Config {
    /// The amount reserved from the owner's balance for every minted item.
    pub kitty_deposit: u64,
}

/// Fresh randomness for one minting, drawn by the caller from its entropy
/// source: a full genome, and one byte whose parity selects the gender.
#[derive(Clone, Copy, Debug)]
pub struct Entropy {
    pub dna: [u8; 16],
    pub gender: u8,
}

/// The failures the registry itself decides.
#[derive(Clone, Copy, PartialEq, Eq, Structural, Debug)]
pub enum Error {
    /// The item counter is at its maximum; no further item can be numbered.
    KittyCntOverflow,
    /// The buyer already owns the item.
    BuyerIsKittyOwner,
    /// An item cannot be transferred to its current owner.
    TransferToSelf,
    /// The item number has no record.
    KittyNotExist,
    /// The acting account does not own the item.
    NotKittyOwner,
    /// The item has no ask price.
    KittyNotForSale,
    /// The bid is below the ask price.
    KittyBidPriceTooLow,
    /// The buyer's free balance is below the bid.
    NotEnoughBalance,
}

/// A failure of a public operation: one the registry decides, or one the
/// ledger surfaces.
#[derive(Clone, Copy, PartialEq, Eq, Structural, Debug)]
pub enum DispatchError {
    Module(Error),
    Ledger(LedgerError),
}

/// The notification an operation records on success.
#[derive(Clone, Copy, PartialEq, Eq, Debug)]
pub enum Event {
    /// A new item was minted. (owner, item)
    Created(u64, u64),
    /// An ask price was set or cleared. (owner, item, price)
    PriceSet(u64, u64, Option<u64>),
    /// An item changed hands without payment. (from, to, item)
    Transferred(u64, u64, u64),
    /// An item was bought. (buyer, seller, item, bid)
    Bought(u64, u64, u64, u64),
    /// A child was bred from two items. (owner, parent, parent, child)
    BreedKitty(u64, u64, u64, u64),
}

/// The registry: item store, ownership index, ledger and notifications.
pub struct Pallet {
    pub config: Config,
    /// The number of items minted; the next item number.
    pub kitty_cnt: u64,
    /// The item store, one record per item number.
    pub kitties: Vec<Kitty>,
    /// The ownership index: the owner per item number, never diverging from
    /// the store's own `owner` field.
    pub kitties_owned: Vec<u64>,
    pub ledger: Ledger,
    /// Every notification recorded so far, oldest first.
    pub events: Vec<Event>,
}

impl Pallet {
    /// The registry's invariant: the counter numbers the rows, the ownership
    /// index agrees with the store, every deposit equals the configured one,
    /// and the ledger is well-formed.
    pub open spec fn wf(self) -> bool {
        &&& self.kitties@.len() == self.kitty_cnt as int
        &&& self.kitties_owned@.len() == self.kitty_cnt as int
        &&& forall|i: int|
            0 <= i < self.kitties@.len() ==> #[trigger] self.kitties_owned@[i]
                == self.kitties@[i].owner
        &&& forall|i: int|
            0 <= i < self.kitties@.len() ==> #[trigger] self.kitties@[i].deposit
                == self.config.kitty_deposit
        &&& self.ledger.wf()
    }

    /// Whether an item with this number exists.
    pub open spec fn has_kitty(self, kitty_id: u64) -> bool {
        (kitty_id as int) < self.kitties@.len()
    }

    /// The item with this number.
    pub open spec fn kitty_of(self, kitty_id: u64) -> Kitty {
        self.kitties@[kitty_id as int]
    }

    /// A fresh registry over the given ledger, with no items.
    pub fn new(config: Config, ledger: Ledger) -> (p: Pallet)
        requires
            ledger.wf(),
        ensures
            p.wf(),
            p.config == config,
            p.ledger == ledger,
            p.kitty_cnt == 0,
            p.kitties@.len() == 0,
            p.kitties_owned@.len() == 0,
            p.events@.len() == 0,
    {
        Pallet {
            config,
            kitty_cnt: 0,
            kitties: Vec::new(),
            kitties_owned: Vec::new(),
            ledger,
            events: Vec::new(),
        }
    }

    /// The number of items minted so far.
    pub fn kitty_cnt(&self) -> (r: u64)
        ensures
            r == self.kitty_cnt,
    {
        self.kitty_cnt
    }

    /// The item with this number, if it exists.
    pub fn kitties(&self, kitty_id: u64) -> (r: Option<Kitty>)
        ensures
            r == if self.has_kitty(kitty_id) {
                Some(self.kitty_of(kitty_id))
            } else {
                None::<Kitty>
            },
    {
        if kitty_id < self.kitties.len() as u64 {
            Some(self.kitties[kitty_id as usize])
        } else {
            None
        }
    }

    /// The recorded owner of this item, if it exists.
    pub fn kitties_owned(&self, kitty_id: u64) -> (r: Option<u64>)
        ensures
            r == if (kitty_id as int) < self.kitties_owned@.len() {
                Some(self.kitties_owned@[kitty_id as int])
            } else {
                None::<u64>
            },
    {
        if kitty_id < self.kitties_owned.len() as u64 {
            Some(self.kitties_owned[kitty_id as usize])
        } else {
            None
        }
    }

    /// Every notification recorded so far, oldest first.
    pub fn events(&self) -> (r: &Vec<Event>)
        ensures
            r@ == self.events@,
    {
        &self.events
    }

    /// Whether `acct` owns the item, or that the item does not exist.
    pub fn is_kitty_owner(&self, kitty_id: u64, acct: u64) -> (r: Result<bool, Error>)
        ensures
            r == if self.has_kitty(kitty_id) {
                Result::<bool, Error>::Ok(self.kitty_of(kitty_id).owner == acct)
            } else {
                Result::<bool, Error>::Err(Error::KittyNotExist)
            },
    {
        if kitty_id < self.kitties.len() as u64 {
            Ok(self.kitties[kitty_id as usize].owner == acct)
        } else {
            Err(Error::KittyNotExist)
        }
    }

    /// The item minted for `owner`, given the minting arguments: the supplied
    /// genome and gender, or ones derived from the entropy where not supplied.
    pub open spec fn minted_kitty(
        s: Pallet,
        owner: u64,
        dna: Option<[u8; 16]>,
        gender: Option<Gender>,
        entropy: Entropy,
    ) -> Kitty {
        Kitty {
            dna: match dna {
                Some(d) => d,
                None => entropy.dna,
            },
            price: None,
            gender: match gender {
                Some(g) => g,
                None => spec_gender_of(entropy.gender),
            },
            owner,
            deposit: s.config.kitty_deposit,
        }
    }

    /// The state change of a successful minting: one more item, owned by
    /// `owner` in store and index alike, its deposit freshly reserved from
    /// `owner`, and nothing else touched.
    pub open spec fn minted_post(pre: Pallet, post: Pallet, owner: u64, k: Kitty) -> bool {
        &&& post.config == pre.config
        &&& post.kitty_cnt == pre.kitty_cnt + 1
        &&& post.kitties@ == pre.kitties@.push(k)
        &&& post.kitties_owned@ == pre.kitties_owned@.push(owner)
        &&& reserve_effect(pre.ledger, post.ledger, owner, pre.config.kitty_deposit)
    }

    /// The error, if any, that minting an item for `owner` reports: first the
    /// ledger's own refusals of the deposit reservation, then exhaustion of
    /// the item counter.
    pub open spec fn mint_outcome(s: Pallet, owner: u64) -> Result<u64, DispatchError> {
        if s.ledger.free_of(owner) < s.config.kitty_deposit {
            Err(DispatchError::Ledger(LedgerError::InsufficientBalance))
        } else if s.ledger.reserved_of(owner) + s.config.kitty_deposit > u64::MAX {
            Err(DispatchError::Ledger(LedgerError::Overflow))
        } else if s.kitty_cnt == u64::MAX {
            Err(DispatchError::Module(Error::KittyCntOverflow))
        } else {
            Ok(s.kitty_cnt)
        }
    }

    /// Mints an item for `owner`: reserves the deposit, numbers the item with
    /// the counter, and records it in the store and the ownership index. The
    /// genome and gender are taken from the arguments where supplied and
    /// derived from the entropy where not.
    pub fn mint(
        &mut self,
        owner: u64,
        dna: Option<[u8; 16]>,
        gender: Option<Gender>,
        entropy: &Entropy,
    ) -> (r: Result<u64, DispatchError>)
        requires
            old(self).wf(),
        ensures
            final(self).wf(),
            r == Self::mint_outcome(*old(self), owner),
            r is Err ==> *final(self) == *old(self),
            r is Ok ==> Self::minted_post(
                *old(self),
                *final(self),
                owner,
                Self::minted_kitty(*old(self), owner, dna, gender, *entropy),
            ),
            final(self).events@ == old(self).events@,
    {
        let deposit = self.config.kitty_deposit;
        let free = self.ledger.free_balance(owner);
        if free < deposit {
            return Err(DispatchError::Ledger(LedgerError::InsufficientBalance));
        }
        let reserved = self.ledger.reserved_balance(owner);
        if reserved > u64::MAX - deposit {
            return Err(DispatchError::Ledger(LedgerError::Overflow));
        }
        if self.kitty_cnt == u64::MAX {
            return Err(DispatchError::Module(Error::KittyCntOverflow));
        }
        match self.ledger.reserve(owner, deposit) {
            Ok(_) => {},
            Err(e) => {
                // Ruled out by the checks above; kept so a failed reservation
                // could never slip through silently.
                return Err(DispatchError::Ledger(e));
            },
        }
        let kitty_dna = match dna {
            Some(d) => d,
            None => entropy.dna,
        };
        let kitty_gender = match gender {
            Some(g) => g,
            None => gen_gender(entropy.gender),
        };
        let kitty = Kitty { dna: kitty_dna, price: None, gender: kitty_gender, owner, deposit };
        let kitty_id = self.kitty_cnt;
        self.kitty_cnt = self.kitty_cnt + 1;
        self.kitties_owned.push(owner);
        self.kitties.push(kitty);
        Ok(kitty_id)
    }

    /// A child genome for the two items: their genomes mixed per bit under the
    /// fresh genome drawn from the entropy, or `KittyNotExist` when either
    /// item is missing.
    pub fn breed_dna(&self, kid1: u64, kid2: u64, entropy: &Entropy) -> (r: Result<[u8; 16], Error>)
        ensures
            r is Ok <==> self.has_kitty(kid1) && self.has_kitty(kid2),
            r matches Ok(d) ==> d@ == spec_combine(
                entropy.dna@,
                self.kitty_of(kid1).dna@,
                self.kitty_of(kid2).dna@,
            ),
            r matches Err(e) ==> e == Error::KittyNotExist,
    {
        let dna1 = match self.kitties(kid1) {
            Some(k) => k.dna,
            None => {
                return Err(Error::KittyNotExist);
            },
        };
        let dna2 = match self.kitties(kid2) {
            Some(k) => k.dna,
            None => {
                return Err(Error::KittyNotExist);
            },
        };
        Ok(crate::genome::combine(&entropy.dna, &dna1, &dna2))
    }

    /// The state change of a successful listing: the item's ask price becomes
    /// `price`, and nothing else — no balance moves.
    pub open spec fn price_set_post(
        pre: Pallet,
        post: Pallet,
        kitty_id: u64,
        who: u64,
        price: Option<u64>,
    ) -> bool {
        &&& post.config == pre.config
        &&& post.kitty_cnt == pre.kitty_cnt
        &&& post.ledger == pre.ledger
        &&& post.kitties_owned@ == pre.kitties_owned@
        &&& post.kitties@ == pre.kitties@.update(
            kitty_id as int,
            (Kitty { price, ..pre.kitties@[kitty_id as int] }),
        )
        &&& post.events@ == pre.events@.push(Event::PriceSet(who, kitty_id, price))
    }

    /// The state change of a successful transfer: the item belongs to
    /// `new_owner` in store and index alike, its ask price is cleared, and its
    /// deposit moved from `who`'s to `new_owner`'s reserved balance.
    pub open spec fn transfer_ok_post(
        pre: Pallet,
        post: Pallet,
        kitty_id: u64,
        who: u64,
        new_owner: u64,
    ) -> bool {
        &&& post.config == pre.config
        &&& post.kitty_cnt == pre.kitty_cnt
        &&& post.kitties@ == pre.kitties@.update(
            kitty_id as int,
            (Kitty { owner: new_owner, price: None, ..pre.kitties@[kitty_id as int] }),
        )
        &&& post.kitties_owned@ == pre.kitties_owned@.update(kitty_id as int, new_owner)
        &&& repatriate_effect(
            pre.ledger,
            post.ledger,
            who,
            new_owner,
            pre.kitties@[kitty_id as int].deposit,
            true,
        )
        &&& post.events@ == pre.events@.push(Event::Transferred(who, new_owner, kitty_id))
    }

    /// The state change of a successful purchase: the item belongs to the
    /// buyer `who` in store and index alike, its ask price is cleared, the
    /// deposit moved from the seller's to the buyer's reserved balance, the
    /// bid from the buyer's to the seller's free balance, and the total
    /// reserved balance is conserved.
    pub open spec fn buy_ok_post(pre: Pallet, post: Pallet, kitty_id: u64, who: u64, bid: u64) -> bool {
        let k = pre.kitties@[kitty_id as int];
        &&& post.config == pre.config
        &&& post.kitty_cnt == pre.kitty_cnt
        &&& post.kitties@ == pre.kitties@.update(
            kitty_id as int,
            (Kitty { owner: who, price: None, ..k }),
        )
        &&& post.kitties_owned@ == pre.kitties_owned@.update(kitty_id as int, who)
        &&& post.ledger.wf()
        &&& post.ledger.min_balance == pre.ledger.min_balance
        &&& post.ledger.reserved_of(k.owner) == pre.ledger.reserved_of(k.owner) - k.deposit
        &&& post.ledger.reserved_of(who) == pre.ledger.reserved_of(who) + k.deposit
        &&& post.ledger.free_of(who) == pre.ledger.free_of(who) - bid
        &&& post.ledger.free_of(k.owner) == pre.ledger.free_of(k.owner) + bid
        &&& forall|a: u64|
            a != who && a != k.owner ==> post.ledger.free_of(a) == pre.ledger.free_of(a)
                && post.ledger.reserved_of(a) == pre.ledger.reserved_of(a)
        &&& post.ledger.total_reserved() == pre.ledger.total_reserved()
        &&& post.events@ == pre.events@.push(Event::Bought(who, k.owner, kitty_id, bid))
    }

    /// The decision of the exchange engine: which error a request reports, or
    /// that it succeeds. The two branches split on whether `who` owns the
    /// item: the owner transfers (when `to` is given) or sets the ask price;
    /// anyone else bids `price` against the ask.
    pub open spec fn exchange_outcome(
        s: Pallet,
        kitty_id: u64,
        who: u64,
        to: Option<u64>,
        price: Option<u64>,
    ) -> Result<(), DispatchError> {
        if !s.has_kitty(kitty_id) {
            Err(DispatchError::Module(Error::KittyNotExist))
        } else {
            let k = s.kitty_of(kitty_id);
            if k.owner == who {
                match to {
                    Some(new_owner) => if new_owner == who {
                        Err(DispatchError::Module(Error::TransferToSelf))
                    } else {
                        match Ledger::repatriate_outcome(s.ledger, who, new_owner, k.deposit, true) {
                            Ok(u) => Ok(u),
                            Err(e) => Err(DispatchError::Ledger(e)),
                        }
                    },
                    None => Ok(()),
                }
            } else {
                match price {
                    None => Err(DispatchError::Module(Error::NotKittyOwner)),
                    Some(bid) => match k.price {
                        None => Err(DispatchError::Module(Error::KittyNotForSale)),
                        Some(ask) => if ask > bid {
                            Err(DispatchError::Module(Error::KittyBidPriceTooLow))
                        } else {
                            match Ledger::repatriate_outcome(s.ledger, k.owner, who, k.deposit, true) {
                                Err(e) => Err(DispatchError::Ledger(e)),
                                Ok(_) => if s.ledger.free_of(who) < bid {
                                    Err(DispatchError::Module(Error::NotEnoughBalance))
                                } else {
                                    match Ledger::transfer_outcome(s.ledger, who, k.owner, bid, true) {
                                        Err(e) => Err(DispatchError::Ledger(e)),
                                        Ok(u) => Ok(u),
                                    }
                                },
                            }
                        },
                    },
                }
            }
        }
    }

    /// The exchange engine. `who` acts on the item: as its owner, handing it
    /// to `to` or setting the ask price to `price`; as anyone else, buying it
    /// at bid `price`. Item state, ownership index and ledger move together:
    /// on any failure the whole state is exactly as it was.
    pub fn handle_kitty_exchange(
        &mut self,
        kitty_id: u64,
        who: u64,
        to: Option<u64>,
        price: Option<u64>,
    ) -> (r: Result<(), DispatchError>)
        requires
            old(self).wf(),
        ensures
            final(self).wf(),
            r == Self::exchange_outcome(*old(self), kitty_id, who, to, price),
            r is Err ==> *final(self) == *old(self),
            r is Ok && old(self).kitty_of(kitty_id).owner == who ==> (to matches Some(new_owner)
                ==> Self::transfer_ok_post(*old(self), *final(self), kitty_id, who, new_owner)),
            r is Ok && old(self).kitty_of(kitty_id).owner == who && to is None
                ==> Self::price_set_post(*old(self), *final(self), kitty_id, who, price),
            r is Ok && old(self).kitty_of(kitty_id).owner != who ==> (price matches Some(bid)
                ==> Self::buy_ok_post(*old(self), *final(self), kitty_id, who, bid)),
    {
        if !(kitty_id < self.kitties.len() as u64) {
            return Err(DispatchError::Module(Error::KittyNotExist));
        }
        let idx = kitty_id as usize;
        let k = self.kitties[idx];
        if k.owner == who {
            match to {
                Some(new_owner) => {
                    if new_owner == who {
                        return Err(DispatchError::Module(Error::TransferToSelf));
                    }
                    // Move the escrowed deposit along with the item.
                    match self.ledger.repatriate_reserved(k.owner, new_owner, k.deposit, true) {
                        Ok(_) => {},
                        Err(e) => {
                            return Err(DispatchError::Ledger(e));
                        },
                    }
                    let mut updated = k;
                    updated.owner = new_owner;
                    updated.price = None;
                    self.kitties[idx] = updated;
                    self.kitties_owned[idx] = new_owner;
                    self.events.push(Event::Transferred(who, new_owner, kitty_id));
                    Ok(())
                },
                None => {
                    // The owner lists the item, or delists it with `None`.
                    let mut updated = k;
                    updated.price = price;
                    self.kitties[idx] = updated;
                    self.events.push(Event::PriceSet(who, kitty_id, price));
                    Ok(())
                },
            }
        } else {
            let bid = match price {
                Some(b) => b,
                None => {
                    return Err(DispatchError::Module(Error::NotKittyOwner));
                },
            };
            let ask = match k.price {
                Some(a) => a,
                None => {
                    return Err(DispatchError::Module(Error::KittyNotForSale));
                },
            };
            if ask > bid {
                return Err(DispatchError::Module(Error::KittyBidPriceTooLow));
            }
            // Every ledger check comes before the first ledger write, in the
            // order the two ledger operations would refuse, so a late refusal
            // can never leave the deposit moved but the bid unpaid.
            let seller = k.owner;
            let seller_reserved = self.ledger.reserved_balance(seller);
            if seller_reserved < k.deposit {
                return Err(DispatchError::Ledger(LedgerError::InsufficientReserved));
            }
            let buyer_reserved = self.ledger.reserved_balance(who);
            if buyer_reserved > u64::MAX - k.deposit {
                return Err(DispatchError::Ledger(LedgerError::Overflow));
            }
            let buyer_free = self.ledger.free_balance(who);
            if buyer_free < bid {
                return Err(DispatchError::Module(Error::NotEnoughBalance));
            }
            if buyer_free - bid < self.ledger.min_balance {
                return Err(DispatchError::Ledger(LedgerError::BelowMinimum));
            }
            let seller_free = self.ledger.free_balance(seller);
            if seller_free > u64::MAX - bid {
                return Err(DispatchError::Ledger(LedgerError::Overflow));
            }
            // Move the escrowed deposit to the buyer.
            match self.ledger.repatriate_reserved(seller, who, k.deposit, true) {
                Ok(_) => {},
                Err(e) => {
                    return Err(DispatchError::Ledger(e));
                },
            }
            // Pay the seller the bid, keeping the buyer alive.
            match self.ledger.transfer(who, seller, bid, true) {
                Ok(_) => {},
                Err(e) => {
                    return Err(DispatchError::Ledger(e));
                },
            }
            let mut updated = k;
            updated.owner = who;
            updated.price = None;
            self.kitties[idx] = updated;
            self.kitties_owned[idx] = who;
            self.events.push(Event::Bought(who, seller, kitty_id, bid));
            Ok(())
        }
    }

    /// The error, if any, that `sell_kitty` reports.
    pub open spec fn sell_outcome(s: Pallet, sender: u64, kitty_id: u64) -> Result<
        (),
        DispatchError,
    > {
        if !s.has_kitty(kitty_id) {
            Err(DispatchError::Module(Error::KittyNotExist))
        } else if s.kitty_of(kitty_id).owner != sender {
            Err(DispatchError::Module(Error::NotKittyOwner))
        } else {
            Ok(())
        }
    }

    /// Sets the ask price of the sender's item to `new_price` (`None`
    /// delists). Only the item's owner may do so; no balance moves.
    pub fn sell_kitty(&mut self, sender: u64, kitty_id: u64, new_price: Option<u64>) -> (r: Result<
        (),
        DispatchError,
    >)
        requires
            old(self).wf(),
        ensures
            final(self).wf(),
            r == Self::sell_outcome(*old(self), sender, kitty_id),
            r is Err ==> *final(self) == *old(self),
            r is Ok ==> Self::price_set_post(*old(self), *final(self), kitty_id, sender, new_price),
    {
        match self.is_kitty_owner(kitty_id, sender) {
            Ok(true) => {},
            Ok(false) => {
                return Err(DispatchError::Module(Error::NotKittyOwner));
            },
            Err(e) => {
                return Err(DispatchError::Module(e));
            },
        }
        self.handle_kitty_exchange(kitty_id, sender, None, new_price)
    }

    /// The error, if any, that `transfer` reports: a self-transfer is refused
    /// before anything else, whatever the item's state.
    pub open spec fn transfer_outcome(s: Pallet, from: u64, to: u64, kitty_id: u64) -> Result<
        (),
        DispatchError,
    > {
        if from == to {
            Err(DispatchError::Module(Error::TransferToSelf))
        } else {
            Self::exchange_outcome(s, kitty_id, from, Some(to), None)
        }
    }

    /// Hands the item from `from` to `to` without payment, moving its deposit
    /// along and clearing its ask price.
    pub fn transfer(&mut self, from: u64, to: u64, kitty_id: u64) -> (r: Result<(), DispatchError>)
        requires
            old(self).wf(),
        ensures
            final(self).wf(),
            r == Self::transfer_outcome(*old(self), from, to, kitty_id),
            r is Err ==> *final(self) == *old(self),
            r is Ok ==> Self::transfer_ok_post(*old(self), *final(self), kitty_id, from, to),
    {
        if from == to {
            return Err(DispatchError::Module(Error::TransferToSelf));
        }
        self.handle_kitty_exchange(kitty_id, from, Some(to), None)
    }

    /// The error, if any, that `buy_kitty` reports.
    pub open spec fn buy_outcome(s: Pallet, buyer: u64, kitty_id: u64, bid_price: u64) -> Result<
        (),
        DispatchError,
    > {
        if !s.has_kitty(kitty_id) {
            Err(DispatchError::Module(Error::KittyNotExist))
        } else if s.kitty_of(kitty_id).owner == buyer {
            Err(DispatchError::Module(Error::BuyerIsKittyOwner))
        } else {
            Self::exchange_outcome(s, kitty_id, buyer, None, Some(bid_price))
        }
    }

    /// Buys a listed item at `bid_price`. The bid must meet the ask price; on
    /// success the bid moves to the seller, the deposit to the buyer, and the
    /// item is no longer for sale.
    pub fn buy_kitty(&mut self, buyer: u64, kitty_id: u64, bid_price: u64) -> (r: Result<
        (),
        DispatchError,
    >)
        requires
            old(self).wf(),
        ensures
            final(self).wf(),
            r == Self::buy_outcome(*old(self), buyer, kitty_id, bid_price),
            r is Err ==> *final(self) == *old(self),
            r is Ok ==> Self::buy_ok_post(*old(self), *final(self), kitty_id, buyer, bid_price),
    {
        match self.is_kitty_owner(kitty_id, buyer) {
            Ok(false) => {},
            Ok(true) => {
                return Err(DispatchError::Module(Error::BuyerIsKittyOwner));
            },
            Err(e) => {
                return Err(DispatchError::Module(e));
            },
        }
        self.handle_kitty_exchange(kitty_id, buyer, None, Some(bid_price))
    }

    /// Mints a new item for `sender` with a genome and gender drawn from the
    /// entropy, reserving the deposit from `sender`'s free balance.
    pub fn create_kitty(&mut self, sender: u64, entropy: &Entropy) -> (r: Result<
        (),
        DispatchError,
    >)
        requires
            old(self).wf(),
        ensures
            final(self).wf(),
            r == (match Self::mint_outcome(*old(self), sender) {
                Ok(_) => Result::<(), DispatchError>::Ok(()),
                Err(e) => Err(e),
            }),
            r is Err ==> *final(self) == *old(self),
            r is Ok ==> Self::minted_post(
                *old(self),
                *final(self),
                sender,
                Self::minted_kitty(*old(self), sender, None, None, *entropy),
            ),
            r is Ok ==> final(self).events@ == old(self).events@.push(
                Event::Created(sender, old(self).kitty_cnt),
            ),
    {
        let kitty_id = match self.mint(sender, None, None, entropy) {
            Ok(id) => id,
            Err(e) => {
                return Err(e);
            },
        };
        self.events.push(Event::Created(sender, kitty_id));
        Ok(())
    }

    /// The error, if any, that `breed_kitty` reports: each parent is checked
    /// in turn for existence and ownership, then minting decides.
    pub open spec fn breed_outcome(s: Pallet, sender: u64, kid1: u64, kid2: u64) -> Result<
        (),
        DispatchError,
    > {
        if !s.has_kitty(kid1) {
            Err(DispatchError::Module(Error::KittyNotExist))
        } else if s.kitty_of(kid1).owner != sender {
            Err(DispatchError::Module(Error::NotKittyOwner))
        } else if !s.has_kitty(kid2) {
            Err(DispatchError::Module(Error::KittyNotExist))
        } else if s.kitty_of(kid2).owner != sender {
            Err(DispatchError::Module(Error::NotKittyOwner))
        } else {
            match Self::mint_outcome(s, sender) {
                Ok(_) => Ok(()),
                Err(e) => Err(e),
            }
        }
    }

    /// Breeds a child from two items that `sender` owns: its genome mixes the
    /// parents' genomes per bit under a fresh mask from the entropy, and it is
    /// minted for `sender` like any new item.
    pub fn breed_kitty(&mut self, sender: u64, kid1: u64, kid2: u64, entropy: &Entropy) -> (r:
        Result<(), DispatchError>)
        requires
            old(self).wf(),
        ensures
            final(self).wf(),
            r == Self::breed_outcome(*old(self), sender, kid1, kid2),
            r is Err ==> *final(self) == *old(self),
            r is Ok ==> Self::minted_post(
                *old(self),
                *final(self),
                sender,
                final(self).kitties@[old(self).kitty_cnt as int],
            ),
            r is Ok ==> final(self).kitties@[old(self).kitty_cnt as int].dna@ == spec_combine(
                entropy.dna@,
                old(self).kitty_of(kid1).dna@,
                old(self).kitty_of(kid2).dna@,
            ),
            r is Ok ==> final(self).kitties@[old(self).kitty_cnt as int].gender == spec_gender_of(
                entropy.gender,
            ),
            r is Ok ==> final(self).kitties@[old(self).kitty_cnt as int].price is None,
            r is Ok ==> final(self).kitties@[old(self).kitty_cnt as int].owner == sender,
            r is Ok ==> final(self).events@ == old(self).events@.push(
                Event::BreedKitty(sender, kid1, kid2, old(self).kitty_cnt),
            ),
    {
        match self.is_kitty_owner(kid1, sender) {
            Ok(true) => {},
            Ok(false) => {
                return Err(DispatchError::Module(Error::NotKittyOwner));
            },
            Err(e) => {
                return Err(DispatchError::Module(e));
            },
        }
        match self.is_kitty_owner(kid2, sender) {
            Ok(true) => {},
            Ok(false) => {
                return Err(DispatchError::Module(Error::NotKittyOwner));
            },
            Err(e) => {
                return Err(DispatchError::Module(e));
            },
        }
        let new_dna = match self.breed_dna(kid1, kid2, entropy) {
            Ok(d) => d,
            Err(e) => {
                // Ruled out: both parents were just found to exist.
                return Err(DispatchError::Module(e));
            },
        };
        let kitty_id = match self.mint(sender, Some(new_dna), None, entropy) {
            Ok(id) => id,
            Err(e) => {
                return Err(e);
            },
        };
        self.events.push(Event::BreedKitty(sender, kid1, kid2, kitty_id));
        Ok(())
    }
}

/// One genesis entry applied to the registry: the item is minted with the
/// supplied genome and gender when minting succeeds for its owner, and the
/// entry is skipped otherwise.
pub open spec fn genesis_mint_step(pre: Pallet, entry: (u64, [u8; 16], Gender), post: Pallet) -> bool {
    if Pallet::mint_outcome(pre, entry.0) is Ok {
        &&& Pallet::minted_post(
            pre,
            post,
            entry.0,
            (Kitty {
                dna: entry.1,
                price: None,
                gender: entry.2,
                owner: entry.0,
                deposit: pre.config.kitty_deposit,
            }),
        )
        &&& post.events@ == pre.events@
    } else {
        post == pre
    }
}

/// The registry stepped through the genesis entries in order, one
/// `genesis_mint_step` each.
pub open spec fn genesis_steps(
    pre: Pallet,
    entries: Seq<(u64, [u8; 16], Gender)>,
    post: Pallet,
) -> bool
    decreases entries.len(),
{
    if entries.len() == 0 {
        post == pre
    } else {
        exists|mid: Pallet|
            #[trigger] genesis_mint_step(pre, entries[0], mid) && genesis_steps(
                mid,
                entries.drop_first(),
                post,
            )
    }
}

proof fn lemma_genesis_steps_snoc(
    pre: Pallet,
    entries: Seq<(u64, [u8; 16], Gender)>,
    mid: Pallet,
    entry: (u64, [u8; 16], Gender),
    post: Pallet,
)
    requires
        genesis_steps(pre, entries, mid),
        genesis_mint_step(mid, entry, post),
    ensures
        genesis_steps(pre, entries.push(entry), post),
    decreases entries.len(),
{
    if entries.len() == 0 {
        assert(entries.push(entry)[0] == entry);
        assert(entries.push(entry).drop_first() =~= Seq::<(u64, [u8; 16], Gender)>::empty());
        assert(genesis_steps(post, entries.push(entry).drop_first(), post));
        assert(genesis_mint_step(pre, entries.push(entry)[0], post));
    } else {
        let m0 = choose|m: Pallet|
            #[trigger] genesis_mint_step(pre, entries[0], m) && genesis_steps(
                m,
                entries.drop_first(),
                mid,
            );
        lemma_genesis_steps_snoc(m0, entries.drop_first(), mid, entry, post);
        assert(entries.push(entry).drop_first() =~= entries.drop_first().push(entry));
        assert(entries.push(entry)[0] == entries[0]);
        assert(genesis_mint_step(pre, entries.push(entry)[0], m0) && genesis_steps(
            m0,
            entries.push(entry).drop_first(),
            post,
        ));
    }
}

/// The items to seed the registry with: for each, an owner, a genome and a
/// gender, all supplied rather than drawn from entropy.
pub struct GenesisConfig {
    pub kitties: Vec<(u64, [u8; 16], Gender)>,
}

impl Default for GenesisConfig {
    /// A genesis with no items.
    fn default() -> (r: GenesisConfig)
        ensures
            r.kitties@.len() == 0,
    {
        GenesisConfig { kitties: Vec::new() }
    }
}

impl GenesisConfig {
    /// Mints every configured item in order, each owned by its account with
    /// its supplied genome and gender. An entry whose minting fails — say an
    /// owner that cannot cover the deposit — is skipped, and the rest are
    /// still minted.
    pub fn build(&self, pallet: &mut Pallet)
        requires
            old(pallet).wf(),
        ensures
            final(pallet).wf(),
            genesis_steps(*old(pallet), self.kitties@, *final(pallet)),
            final(pallet).events@ == old(pallet).events@,
            final(pallet).config == old(pallet).config,
    {
        let entropy = Entropy { dna: [0u8; 16], gender: 0 };
        proof {
            assert(self.kitties@.take(0) =~= Seq::<(u64, [u8; 16], Gender)>::empty());
            assert(genesis_steps(*old(pallet), self.kitties@.take(0), *pallet));
        }
        let mut i: usize = 0;
        while i < self.kitties.len()
            invariant
                i <= self.kitties@.len(),
                pallet.wf(),
                genesis_steps(*old(pallet), self.kitties@.take(i as int), *pallet),
                pallet.events@ == old(pallet).events@,
                pallet.config == old(pallet).config,
            decreases self.kitties@.len() - i,
        {
            let entry = self.kitties[i];
            let ghost prev = *pallet;
            let _ = pallet.mint(entry.0, Some(entry.1), Some(entry.2), &entropy);
            proof {
                assert(genesis_mint_step(prev, self.kitties@[i as int], *pallet));
                lemma_genesis_steps_snoc(
                    *old(pallet),
                    self.kitties@.take(i as int),
                    prev,
                    self.kitties@[i as int],
                    *pallet,
                );
                assert(self.kitties@.take(i as int).push(self.kitties@[i as int])
                    =~= self.kitties@.take(i as int + 1));
            }
            i = i + 1;
        }
        proof {
            assert(self.kitties@.take(self.kitties@.len() as int) =~= self.kitties@);
        }
    }
}

} // verus!
