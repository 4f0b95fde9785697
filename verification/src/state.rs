use vstd::prelude::*;
use crate::constants::{MAX_ENTRANTS, MAX_WINNERS};
use crate::error::RaffleError;
use crate::identity::Identity;

verus! {

/// What a raffle is created with. None of it changes afterwards.
#[derive(Debug, Clone, Copy, PartialEq, Eq)]
pub struct RaffleConfig {
    /// The account that configured the raffle.
    pub creator: Identity,
    /// The prize asset.
    pub nft_mint: Identity,
    /// Whether the winner slots must go to pairwise distinct identities.
    pub no_repeat: bool,
    /// The raffle's ticket cap.
    pub max_entrants: u64,
    /// First moment of the ticket sale.
    pub start_timestamp: i64,
    /// Last moment of the ticket sale.
    pub end_timestamp: i64,
    /// Ticket price in each of the three currencies.
    pub ticket_price_booga: u64,
    pub ticket_price_zion: u64,
    pub ticket_price_sol: u64,
    /// Whether only identities of an approved set may enter.
    pub whitelisted: bool,
}

impl RaffleConfig {
    /// The cap fits the record and the sale window does not end before it
    /// starts.
    pub open spec fn valid(self) -> bool {
        &&& self.max_entrants <= MAX_ENTRANTS
        &&& self.start_timestamp <= self.end_timestamp
    }

    /// Every field is zero: the identities all-zero, the flags unset.
    pub open spec fn is_blank(self) -> bool {
        &&& self.creator.is_zero()
        &&& self.nft_mint.is_zero()
        &&& !self.no_repeat
        &&& self.max_entrants == 0
        &&& self.start_timestamp == 0
        &&& self.end_timestamp == 0
        &&& self.ticket_price_booga == 0
        &&& self.ticket_price_zion == 0
        &&& self.ticket_price_sol == 0
        &&& !self.whitelisted
    }

    /// Why the configuration is refused, if it is. The cap is looked at first.
    pub open spec fn rejection(self) -> Option<RaffleError> {
        if self.max_entrants > MAX_ENTRANTS {
            Some(RaffleError::CapacityExceeded)
        } else if self.start_timestamp > self.end_timestamp {
            Some(RaffleError::InvalidWindow)
        } else {
            None
        }
    }
}

/// The meaning of a raffle record: the live part of its arrays as sequences.
pub struct RaffleState {
    pub config: RaffleConfig,
    /// The ticket purchasers, in purchase order.
    pub entrants: Seq<Identity>,
    /// For each filled winner slot, the drawn position within `entrants`.
    pub indexes: Seq<u64>,
    /// For each of the `MAX_WINNERS` winner slots, whether its prize was
    /// claimed.
    pub claimed: Seq<bool>,
}

impl RaffleState {
    /// The identities that stand at the given positions of the entrant list.
    pub open spec fn resolve(self, positions: Seq<u64>) -> Seq<Identity> {
        Seq::new(positions.len(), |i: int| self.entrants[positions[i] as int])
    }

    /// The winners, slot by slot.
    pub open spec fn winners(self) -> Seq<Identity> {
        self.resolve(self.indexes)
    }

    /// What holds of every raffle: the entrants fit under the cap and the cap
    /// in the record; every filled winner slot points at an entrant; only
    /// filled slots are claimed; and where the raffle forbids repeats, no
    /// identity wins twice.
    pub open spec fn wf(self) -> bool {
        &&& self.config.valid()
        &&& self.entrants.len() <= self.config.max_entrants
        &&& self.indexes.len() <= MAX_WINNERS
        &&& self.indexes.len() <= self.entrants.len()
        &&& forall|i: int| 0 <= i < self.indexes.len() ==> self.indexes[i] < self.entrants.len()
        &&& self.claimed.len() == MAX_WINNERS
        &&& forall|i: int| 0 <= i < MAX_WINNERS && self.claimed[i] ==> i < self.indexes.len()
        &&& self.config.no_repeat ==> self.winners().no_duplicates()
    }

    /// A raffle right after its creation: nobody entered, nothing drawn,
    /// nothing claimed.
    pub open spec fn fresh(config: RaffleConfig) -> RaffleState {
        RaffleState {
            config,
            entrants: Seq::empty(),
            indexes: Seq::empty(),
            claimed: Seq::new(MAX_WINNERS as nat, |i: int| false),
        }
    }

    /// Whether a ticket is left under the raffle's cap.
    pub open spec fn has_room(self) -> bool {
        self.entrants.len() < self.config.max_entrants
    }

    /// Whether an append is accepted, and the refusal if not.
    pub open spec fn append_result(self) -> Result<(), RaffleError> {
        if self.has_room() {
            Ok(())
        } else {
            Err(RaffleError::CapacityExceeded)
        }
    }

    /// The state that an append leaves: with the buyer at the end of the
    /// entrant list where there is room, and unchanged where there is none.
    pub open spec fn after_append(self, buyer: Identity) -> RaffleState {
        if self.has_room() {
            RaffleState { entrants: self.entrants.push(buyer), ..self }
        } else {
            self
        }
    }

    /// The state after one append for each buyer, in order.
    pub open spec fn after_appends(self, buyers: Seq<Identity>) -> RaffleState
        decreases buyers.len(),
    {
        if buyers.len() == 0 {
            self
        } else {
            self.after_appends(buyers.drop_last()).after_append(buyers.last())
        }
    }

    /// Whether every position lies within the entrant list.
    pub open spec fn positions_in_range(self, positions: Seq<u64>) -> bool {
        forall|i: int| 0 <= i < positions.len() ==> positions[i] < self.entrants.len()
    }

    /// Whether a draw of these positions is accepted, and the refusal if not.
    /// The refusals come in this order: already drawn; more positions than
    /// winner slots or than entrants, or a position past the last entrant; a
    /// repeated identity where the raffle forbids it.
    pub open spec fn draw_result(self, positions: Seq<u64>) -> Result<(), RaffleError> {
        if self.indexes.len() != 0 {
            Err(RaffleError::AlreadyDrawn)
        } else if positions.len() > MAX_WINNERS || positions.len() > self.entrants.len()
            || !self.positions_in_range(positions) {
            Err(RaffleError::InvalidSlot)
        } else if self.config.no_repeat && !self.resolve(positions).no_duplicates() {
            Err(RaffleError::DuplicateWinner)
        } else {
            Ok(())
        }
    }

    /// The state that a draw leaves: the positions recorded slot by slot
    /// where the draw is accepted, and unchanged where it is refused.
    pub open spec fn after_draw(self, positions: Seq<u64>) -> RaffleState {
        if self.draw_result(positions) is Ok {
            RaffleState { indexes: positions, ..self }
        } else {
            self
        }
    }

    /// Whether a claim of this winner slot is accepted, and the refusal if
    /// not.
    pub open spec fn claim_result(self, slot: u64) -> Result<(), RaffleError> {
        if slot >= self.indexes.len() {
            Err(RaffleError::InvalidSlot)
        } else if self.claimed[slot as int] {
            Err(RaffleError::AlreadyClaimed)
        } else {
            Ok(())
        }
    }

    /// The state that a claim leaves: the slot's flag set where the claim is
    /// accepted, and unchanged where it is refused.
    pub open spec fn after_claim(self, slot: u64) -> RaffleState {
        if self.claim_result(slot) is Ok {
            RaffleState { claimed: self.claimed.update(slot as int, true), ..self }
        } else {
            self
        }
    }

    /// Whether the moment lies within the ticket-sale window, both ends
    /// included.
    pub open spec fn window_holds(self, now: i64) -> bool {
        self.config.start_timestamp <= now <= self.config.end_timestamp
    }

    /// A freshly created raffle of a valid configuration is well formed, and
    /// none of its winner slots is claimed.
    pub proof fn lemma_fresh_is_wf(config: RaffleConfig)
        requires
            config.valid(),
        ensures
            Self::fresh(config).wf(),
            forall|i: int| 0 <= i < MAX_WINNERS ==> !Self::fresh(config).claimed[i],
    {
        assert(Self::fresh(config).winners() =~= Seq::<Identity>::empty());
    }

    /// An append keeps a well-formed raffle well formed, and touches neither
    /// the winners nor the claims.
    pub proof fn lemma_append_preserves_wf(self, buyer: Identity)
        requires
            self.wf(),
        ensures
            self.after_append(buyer).wf(),
            self.after_append(buyer).winners() == self.winners(),
            self.after_append(buyer).claimed == self.claimed,
            self.after_append(buyer).indexes == self.indexes,
    {
        assert(self.after_append(buyer).winners() =~= self.winners());
    }

    /// Appends within the cap record the buyers in order: where each of the
    /// calls finds room, the entrant list grows by exactly the buyers, one
    /// entrant per call, and nothing else changes.
    pub proof fn lemma_appends_in_order(self, buyers: Seq<Identity>)
        requires
            self.wf(),
            forall|k: int|
                0 <= k < buyers.len() ==> (#[trigger] self.after_appends(buyers.take(k))).has_room(),
        ensures
            self.after_appends(buyers) == (RaffleState {
                entrants: self.entrants + buyers,
                ..self
            }),
            self.after_appends(buyers).entrants.len() == self.entrants.len() + buyers.len(),
            self.after_appends(buyers).wf(),
        decreases buyers.len(),
    {
        if buyers.len() == 0 {
            assert(self.entrants + buyers =~= self.entrants);
        } else {
            let front = buyers.drop_last();
            assert forall|k: int| 0 <= k < front.len() implies (#[trigger] self.after_appends(
                front.take(k),
            )).has_room() by {
                assert(front.take(k) =~= buyers.take(k));
            }
            self.lemma_appends_in_order(front);
            let before = self.after_appends(front);
            assert(buyers.take(front.len() as int) =~= front);
            assert(before.has_room());
            before.lemma_append_preserves_wf(buyers.last());
            assert(before.entrants.push(buyers.last()) =~= self.entrants + buyers);
        }
    }

    /// Where the buyers fit under the cap together, each of their appends
    /// finds room.
    pub proof fn lemma_appends_find_room(self, buyers: Seq<Identity>)
        requires
            self.wf(),
            self.entrants.len() + buyers.len() <= self.config.max_entrants,
        ensures
            forall|k: int|
                0 <= k < buyers.len() ==> (#[trigger] self.after_appends(buyers.take(k))).has_room(),
        decreases buyers.len(),
    {
        if buyers.len() > 0 {
            let front = buyers.drop_last();
            self.lemma_appends_find_room(front);
            assert forall|k: int| 0 <= k < front.len() implies (#[trigger] self.after_appends(
                buyers.take(k),
            )).has_room() by {
                assert(front.take(k) =~= buyers.take(k));
            }
            self.lemma_appends_in_order(front);
            assert(buyers.take(front.len() as int) =~= front);
        }
    }

    /// From a fresh raffle, appends within the cap leave exactly the buyers
    /// as entrants: the count is the number of calls.
    pub proof fn lemma_appends_from_fresh(config: RaffleConfig, buyers: Seq<Identity>)
        requires
            config.valid(),
            buyers.len() <= config.max_entrants,
        ensures
            Self::fresh(config).after_appends(buyers).entrants == buyers,
            Self::fresh(config).after_appends(buyers).entrants.len() == buyers.len(),
    {
        let start = Self::fresh(config);
        Self::lemma_fresh_is_wf(config);
        start.lemma_appends_find_room(buyers);
        start.lemma_appends_in_order(buyers);
        assert(start.entrants + buyers =~= buyers);
    }

    /// A draw keeps a well-formed raffle well formed and leaves every winner
    /// slot unclaimed. Where the raffle forbids repeats, an accepted draw
    /// gives pairwise distinct winners, each identity at most once in their
    /// multiset, and a draw whose positions resolve to a repeated identity is
    /// refused.
    pub proof fn lemma_draw_respects_no_repeat(self, positions: Seq<u64>)
        requires
            self.wf(),
        ensures
            self.after_draw(positions).wf(),
            self.draw_result(positions) is Ok ==> {
                &&& self.after_draw(positions).winners() == self.resolve(positions)
                &&& forall|i: int| 0 <= i < MAX_WINNERS ==> !self.after_draw(positions).claimed[i]
            },
            self.config.no_repeat && self.draw_result(positions) is Ok ==> {
                &&& self.after_draw(positions).winners().no_duplicates()
                &&& forall|id: Identity|
                    self.after_draw(positions).winners().to_multiset().count(id) <= 1
            },
            self.config.no_repeat && !self.resolve(positions).no_duplicates()
                ==> self.draw_result(positions) is Err,
    {
        if self.draw_result(positions) is Ok {
            let next = self.after_draw(positions);
            assert(next.winners() =~= self.resolve(positions));
            if self.config.no_repeat {
                next.winners().lemma_multiset_has_no_duplicates();
            }
        }
    }

    /// Claiming a slot twice: after an accepted claim the slot's flag is set,
    /// a second claim of the same slot is refused as already claimed, and the
    /// refused claim leaves the state as the first one left it.
    pub proof fn lemma_second_claim_is_refused(self, slot: u64)
        requires
            self.wf(),
            self.claim_result(slot) is Ok,
        ensures
            self.after_claim(slot).wf(),
            self.after_claim(slot).claimed[slot as int],
            self.after_claim(slot).claim_result(slot) == Err::<(), RaffleError>(
                RaffleError::AlreadyClaimed,
            ),
            self.after_claim(slot).after_claim(slot) == self.after_claim(slot),
    {
    }

    /// No operation rewrites history: each of the three leaves the
    /// configuration as it was and the recorded entrants in their places, and
    /// only an append adds one behind them.
    pub proof fn lemma_entrants_only_grow(
        self,
        buyer: Identity,
        positions: Seq<u64>,
        slot: u64,
    )
        ensures
            self.after_append(buyer).config == self.config,
            self.after_draw(positions).config == self.config,
            self.after_claim(slot).config == self.config,
            self.entrants.is_prefix_of(self.after_append(buyer).entrants),
            self.after_append(buyer).entrants.len() <= self.entrants.len() + 1,
            self.after_draw(positions).entrants == self.entrants,
            self.after_claim(slot).entrants == self.entrants,
    {
    }

    /// A claim sets no flag but that of its own slot.
    pub proof fn lemma_claim_touches_one_flag(self, slot: u64, other: int)
        requires
            self.wf(),
            0 <= other < MAX_WINNERS,
            other != slot,
        ensures
            self.after_claim(slot).claimed[other] == self.claimed[other],
            self.after_claim(slot).entrants == self.entrants,
            self.after_claim(slot).indexes == self.indexes,
            self.after_claim(slot).config == self.config,
    {
    }
}

} // verus!
