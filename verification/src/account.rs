use vstd::prelude::*;
use crate::constants::{MAX_ENTRANTS, MAX_WINNERS};
use crate::error::RaffleError;
use crate::identity::Identity;
use crate::state::{RaffleConfig, RaffleState};

verus! {

/// The deployment's one authority record: who may perform privileged
/// operations.
#[derive(Debug, Clone, Copy, PartialEq, Eq)]
pub struct GlobalPool {
    super_admin: Identity,
}

impl GlobalPool {
    /// The recorded administrator.
    pub closed spec fn admin(self) -> Identity {
        self.super_admin
    }

    pub fn new(super_admin: Identity) -> (pool: GlobalPool)
        ensures
            pool.admin() == super_admin,
    {
        GlobalPool { super_admin }
    }

    pub fn super_admin(&self) -> (id: Identity)
        ensures
            id == self.admin(),
    {
        self.super_admin
    }

    /// Hands the authority to `new_admin`. `authorized` is the verdict of the
    /// authorization check, which is made elsewhere: without it nothing
    /// changes.
    pub fn transfer_authority(&mut self, authorized: bool, new_admin: Identity) -> (res: Result<
        (),
        RaffleError,
    >)
        ensures
            authorized ==> res is Ok && final(self).admin() == new_admin,
            !authorized ==> res == Err::<(), RaffleError>(RaffleError::Unauthorized) && *final(self)
                == *old(self),
    {
        if !authorized {
            return Err(RaffleError::Unauthorized);
        }
        self.super_admin = new_admin;
        Ok(())
    }
}

impl Default for GlobalPool {
    /// A record whose administrator is the all-zero identity.
    fn default() -> (pool: GlobalPool)
        ensures
            pool.admin().is_zero(),
    {
        GlobalPool { super_admin: Identity::default() }
    }
}

/// One raffle: its configuration, the entrants in purchase order, the drawn
/// winners and their claims, in arrays of fixed size. Only the first `count`
/// entrant slots and the first `winner_count` winner slots hold data; the
/// others hold zeros.
#[derive(Debug, Clone, Copy, PartialEq, Eq)]
pub struct RafflePool {
    creator: Identity,
    nft_mint: Identity,
    count: u64,
    winner_count: u64,
    no_repeat: bool,
    max_entrants: u64,
    start_timestamp: i64,
    end_timestamp: i64,
    ticket_price_booga: u64,
    ticket_price_zion: u64,
    ticket_price_sol: u64,
    whitelisted: bool,
    claimed_winner: [bool; MAX_WINNERS],
    indexes: [u64; MAX_WINNERS],
    winner: [Identity; MAX_WINNERS],
    entrants: [Identity; MAX_ENTRANTS],
}

impl View for RafflePool {
    type V = RaffleState;

    closed spec fn view(&self) -> RaffleState {
        RaffleState {
            config: RaffleConfig {
                creator: self.creator,
                nft_mint: self.nft_mint,
                no_repeat: self.no_repeat,
                max_entrants: self.max_entrants,
                start_timestamp: self.start_timestamp,
                end_timestamp: self.end_timestamp,
                ticket_price_booga: self.ticket_price_booga,
                ticket_price_zion: self.ticket_price_zion,
                ticket_price_sol: self.ticket_price_sol,
                whitelisted: self.whitelisted,
            },
            entrants: self.entrants@.take(self.count as int),
            indexes: self.indexes@.take(self.winner_count as int),
            claimed: self.claimed_winner@,
        }
    }
}

/// Whether the first `n` identities of the array are pairwise distinct.
fn distinct_prefix(ids: &[Identity; MAX_WINNERS], n: usize) -> (distinct: bool)
    requires
        n <= MAX_WINNERS,
    ensures
        distinct == ids@.take(n as int).no_duplicates(),
{
    let mut j: usize = 0;
    while j < n
        invariant
            j <= n <= MAX_WINNERS,
            forall|a: int, b: int| 0 <= a < b < j ==> ids@[a] != ids@[b],
        decreases n - j,
    {
        let mut i: usize = 0;
        while i < j
            invariant
                i <= j < n <= MAX_WINNERS,
                forall|a: int| 0 <= a < i ==> ids@[a] != ids@[j as int],
            decreases j - i,
        {
            if ids[i] == ids[j] {
                proof {
                    let prefix = ids@.take(n as int);
                    assert(prefix[i as int] == prefix[j as int]);
                }
                return false;
            }
            i += 1;
        }
        j += 1;
    }
    true
}

impl RafflePool {
    #[verifier::type_invariant]
    spec fn inv(self) -> bool {
        &&& self.count <= self.max_entrants <= MAX_ENTRANTS
        &&& self.winner_count <= MAX_WINNERS
        &&& self.winner_count <= self.count
        &&& self.start_timestamp <= self.end_timestamp
        &&& forall|i: int|
            0 <= i < self.winner_count ==> (#[trigger] self.indexes@[i]) < self.count
        &&& forall|i: int|
            0 <= i < self.winner_count ==> #[trigger] self.winner@[i]
                == self.entrants@[self.indexes@[i] as int]
        &&& self.no_repeat ==> forall|i: int, j: int|
            0 <= i < j < self.winner_count ==> self.winner@[i] != self.winner@[j]
        &&& forall|i: int|
            0 <= i < MAX_WINNERS && #[trigger] self.claimed_winner@[i] ==> i < self.winner_count
        &&& forall|i: int|
            self.count <= i < MAX_ENTRANTS ==> (#[trigger] self.entrants@[i]).is_zero()
        &&& forall|i: int|
            self.winner_count <= i < MAX_WINNERS ==> #[trigger] self.indexes@[i] == 0
        &&& forall|i: int|
            self.winner_count <= i < MAX_WINNERS ==> (#[trigger] self.winner@[i]).is_zero()
    }

    /// The stored winners are the entrants at the stored positions.
    proof fn lemma_winners_are_stored(self)
        requires
            self.inv(),
        ensures
            self@.winners() == self.winner@.take(self.winner_count as int),
    {
        assert(self@.winners() =~= self.winner@.take(self.winner_count as int));
    }

    /// A record that keeps its invariant means a well-formed raffle.
    proof fn lemma_inv_gives_wf(self)
        requires
            self.inv(),
        ensures
            self@.wf(),
    {
        self.lemma_winners_are_stored();
    }

    /// Creates a raffle with no entrant, no winner and no claim. A cap above
    /// `MAX_ENTRANTS` is refused as `CapacityExceeded`; otherwise a window
    /// that ends before it starts is refused as `InvalidWindow`.
    pub fn new(config: RaffleConfig) -> (res: Result<RafflePool, RaffleError>)
        ensures
            config.rejection() matches Some(e) ==> res == Err::<RafflePool, RaffleError>(e),
            config.rejection() is None ==> (res matches Ok(pool) && pool@ == RaffleState::fresh(
                config,
            ) && pool@.wf()),
            res matches Ok(pool) ==> forall|i: int| 0 <= i < MAX_WINNERS ==> !pool@.claimed[i],
    {
        if config.max_entrants > MAX_ENTRANTS as u64 {
            return Err(RaffleError::CapacityExceeded);
        }
        if config.start_timestamp > config.end_timestamp {
            return Err(RaffleError::InvalidWindow);
        }
        let pool = RafflePool {
            creator: config.creator,
            nft_mint: config.nft_mint,
            count: 0,
            winner_count: 0,
            no_repeat: config.no_repeat,
            max_entrants: config.max_entrants,
            start_timestamp: config.start_timestamp,
            end_timestamp: config.end_timestamp,
            ticket_price_booga: config.ticket_price_booga,
            ticket_price_zion: config.ticket_price_zion,
            ticket_price_sol: config.ticket_price_sol,
            whitelisted: config.whitelisted,
            claimed_winner: [false; MAX_WINNERS],
            indexes: [0u64; MAX_WINNERS],
            winner: Identity::zeros(),
            entrants: Identity::zeros(),
        };
        assert(pool@ =~= RaffleState::fresh(config)) by {
            assert(pool@.entrants =~= Seq::<Identity>::empty());
            assert(pool@.indexes =~= Seq::<u64>::empty());
            assert(pool@.claimed =~= Seq::new(MAX_WINNERS as nat, |i: int| false));
        }
        proof {
            RaffleState::lemma_fresh_is_wf(config);
        }
        Ok(pool)
    }

    /// Adds one entrant at the end of the list, if a ticket is left under the
    /// raffle's cap. A full raffle refuses with `CapacityExceeded`.
    pub fn append(&mut self, buyer: Identity) -> (res: Result<(), RaffleError>)
        ensures
            res == old(self)@.append_result(),
            final(self)@ == old(self)@.after_append(buyer),
            res is Err ==> *final(self) == *old(self),
            final(self)@.wf(),
    {
        proof {
            use_type_invariant(&*self);
            self.lemma_inv_gives_wf();
            self@.lemma_append_preserves_wf(buyer);
        }
        if self.count >= self.max_entrants {
            return Err(RaffleError::CapacityExceeded);
        }
        let slot = self.count as usize;
        // The count goes first: the slot it opens still holds zeros, so the
        // record is consistent between the two writes.
        self.count = self.count + 1;
        self.entrants[slot] = buyer;
        assert(self@.entrants =~= old(self)@.entrants.push(buyer));
        assert(self@.indexes =~= old(self)@.indexes);
        Ok(())
    }

    /// Records the drawn positions as the raffle's winners: slot `i` gets
    /// position `positions[i]` and the identity that entered there, and the
    /// number of winners becomes the number of positions. A refused draw
    /// changes nothing. Refused are, in this order: a draw on a raffle that
    /// already has winners (`AlreadyDrawn`); more positions than winner slots
    /// or than entrants, or a position past the last entrant (`InvalidSlot`);
    /// where the raffle forbids repeats, positions of which two belong to one
    /// identity (`DuplicateWinner`).
    #[verifier::loop_isolation(false)]
    pub fn record_winners(&mut self, positions: &[u64]) -> (res: Result<(), RaffleError>)
        ensures
            res == old(self)@.draw_result(positions@),
            final(self)@ == old(self)@.after_draw(positions@),
            res is Err ==> *final(self) == *old(self),
            res is Ok ==> final(self)@.winners() == old(self)@.resolve(positions@),
            res is Ok ==> forall|i: int| 0 <= i < MAX_WINNERS ==> !final(self)@.claimed[i],
            res is Ok && old(self)@.config.no_repeat ==> final(self)@.winners().no_duplicates(),
            final(self)@.wf(),
    {
        proof {
            use_type_invariant(&*self);
            self.lemma_inv_gives_wf();
            self@.lemma_draw_respects_no_repeat(positions@);
        }
        if self.winner_count != 0 {
            return Err(RaffleError::AlreadyDrawn);
        }
        let n = positions.len();
        if n > MAX_WINNERS || n as u64 > self.count {
            return Err(RaffleError::InvalidSlot);
        }
        let mut indexes = [0u64; MAX_WINNERS];
        let mut winner: [Identity; MAX_WINNERS] = Identity::zeros();
        let mut i: usize = 0;
        while i < n
            invariant
                *self == *old(self),
                i <= n,
                forall|k: int| 0 <= k < i ==> positions@[k] < self.count,
                forall|k: int| 0 <= k < i ==> #[trigger] indexes@[k] == positions@[k],
                forall|k: int|
                    0 <= k < i ==> #[trigger] winner@[k] == self.entrants@[positions@[k] as int],
                forall|k: int| i <= k < MAX_WINNERS ==> #[trigger] indexes@[k] == 0,
                forall|k: int| i <= k < MAX_WINNERS ==> (#[trigger] winner@[k]).is_zero(),
            decreases n - i,
        {
            let position = positions[i];
            if position >= self.count {
                return Err(RaffleError::InvalidSlot);
            }
            indexes[i] = position;
            winner[i] = self.entrants[position as usize];
            i += 1;
        }
        assert(winner@.take(n as int) =~= self@.resolve(positions@));
        if self.no_repeat && !distinct_prefix(&winner, n) {
            return Err(RaffleError::DuplicateWinner);
        }
        proof {
            let drawn = winner@.take(n as int);
            assert forall|a: int, b: int| self.no_repeat && 0 <= a < b < n implies winner@[a]
                != winner@[b] by {
                assert(drawn[a] == winner@[a] && drawn[b] == winner@[b]);
            }
        }
        *self = RafflePool { winner_count: n as u64, indexes, winner, ..*self };
        assert(self@.indexes =~= positions@);
        assert(self@.entrants =~= old(self)@.entrants);
        Ok(())
    }

    /// Marks the prize of a winner slot as claimed. A slot that holds no
    /// winner is refused with `InvalidSlot`, a second claim of a slot with
    /// `AlreadyClaimed`; a refused claim changes nothing.
    pub fn claim(&mut self, winner_slot: u64) -> (res: Result<(), RaffleError>)
        ensures
            res == old(self)@.claim_result(winner_slot),
            final(self)@ == old(self)@.after_claim(winner_slot),
            res is Err ==> *final(self) == *old(self),
            final(self)@.wf(),
    {
        proof {
            use_type_invariant(&*self);
            self.lemma_inv_gives_wf();
        }
        if winner_slot >= self.winner_count {
            return Err(RaffleError::InvalidSlot);
        }
        let slot = winner_slot as usize;
        if self.claimed_winner[slot] {
            return Err(RaffleError::AlreadyClaimed);
        }
        self.claimed_winner[slot] = true;
        assert(self@.entrants =~= old(self)@.entrants);
        assert(self@.indexes =~= old(self)@.indexes);
        proof {
            self.lemma_inv_gives_wf();
        }
        Ok(())
    }

    /// Whether the moment lies within the ticket-sale window, whose two ends
    /// both belong to it; any other moment is refused with `InvalidWindow`.
    pub fn check_window(&self, now: i64) -> (res: Result<(), RaffleError>)
        ensures
            self@.window_holds(now) ==> res is Ok,
            !self@.window_holds(now) ==> res == Err::<(), RaffleError>(RaffleError::InvalidWindow),
    {
        if self.start_timestamp <= now && now <= self.end_timestamp {
            Ok(())
        } else {
            Err(RaffleError::InvalidWindow)
        }
    }

    /// The number of entrants recorded so far.
    pub fn count(&self) -> (n: u64)
        ensures
            n == self@.entrants.len(),
            self@.wf(),
    {
        proof {
            use_type_invariant(self);
            self.lemma_inv_gives_wf();
        }
        self.count
    }

    /// The number of winner slots that the draw filled; zero before it.
    pub fn winner_count(&self) -> (n: u64)
        ensures
            n == self@.indexes.len(),
            self@.wf(),
    {
        proof {
            use_type_invariant(self);
            self.lemma_inv_gives_wf();
        }
        self.winner_count
    }

    /// The identity that bought the ticket at this position of the list, if
    /// there is one.
    pub fn entrant(&self, position: u64) -> (entrant: Option<Identity>)
        ensures
            position < self@.entrants.len() ==> entrant == Some(self@.entrants[position as int]),
            position >= self@.entrants.len() ==> entrant is None,
    {
        proof {
            use_type_invariant(self);
        }
        if position < self.count {
            Some(self.entrants[position as usize])
        } else {
            None
        }
    }

    /// The position within the entrant list that was drawn for this winner
    /// slot, if the slot is filled.
    pub fn index(&self, winner_slot: u64) -> (index: Option<u64>)
        ensures
            winner_slot < self@.indexes.len() ==> index == Some(self@.indexes[winner_slot as int]),
            winner_slot >= self@.indexes.len() ==> index is None,
    {
        proof {
            use_type_invariant(self);
        }
        if winner_slot < self.winner_count {
            Some(self.indexes[winner_slot as usize])
        } else {
            None
        }
    }

    /// The winner of this slot, if the slot is filled: the entrant at the
    /// position drawn for it.
    pub fn winner(&self, winner_slot: u64) -> (winner: Option<Identity>)
        ensures
            winner_slot < self@.indexes.len() ==> winner == Some(
                self@.winners()[winner_slot as int],
            ),
            winner_slot >= self@.indexes.len() ==> winner is None,
    {
        proof {
            use_type_invariant(self);
            self.lemma_winners_are_stored();
        }
        if winner_slot < self.winner_count {
            Some(self.winner[winner_slot as usize])
        } else {
            None
        }
    }

    /// Whether the prize of this winner slot has been claimed. No slot past
    /// the last one is ever claimed.
    pub fn is_claimed(&self, winner_slot: u64) -> (claimed: bool)
        ensures
            claimed == (winner_slot < MAX_WINNERS && self@.claimed[winner_slot as int]),
    {
        if winner_slot < MAX_WINNERS as u64 {
            self.claimed_winner[winner_slot as usize]
        } else {
            false
        }
    }

    /// What the raffle was created with.
    pub fn config(&self) -> (config: RaffleConfig)
        ensures
            config == self@.config,
    {
        RaffleConfig {
            creator: self.creator,
            nft_mint: self.nft_mint,
            no_repeat: self.no_repeat,
            max_entrants: self.max_entrants,
            start_timestamp: self.start_timestamp,
            end_timestamp: self.end_timestamp,
            ticket_price_booga: self.ticket_price_booga,
            ticket_price_zion: self.ticket_price_zion,
            ticket_price_sol: self.ticket_price_sol,
            whitelisted: self.whitelisted,
        }
    }

    pub fn creator(&self) -> (id: Identity)
        ensures
            id == self@.config.creator,
    {
        self.creator
    }

    pub fn nft_mint(&self) -> (id: Identity)
        ensures
            id == self@.config.nft_mint,
    {
        self.nft_mint
    }

    pub fn no_repeat(&self) -> (flag: bool)
        ensures
            flag == self@.config.no_repeat,
    {
        self.no_repeat
    }

    pub fn max_entrants(&self) -> (cap: u64)
        ensures
            cap == self@.config.max_entrants,
    {
        self.max_entrants
    }

    pub fn start_timestamp(&self) -> (at: i64)
        ensures
            at == self@.config.start_timestamp,
    {
        self.start_timestamp
    }

    pub fn end_timestamp(&self) -> (at: i64)
        ensures
            at == self@.config.end_timestamp,
    {
        self.end_timestamp
    }

    pub fn ticket_price_booga(&self) -> (price: u64)
        ensures
            price == self@.config.ticket_price_booga,
    {
        self.ticket_price_booga
    }

    pub fn ticket_price_zion(&self) -> (price: u64)
        ensures
            price == self@.config.ticket_price_zion,
    {
        self.ticket_price_zion
    }

    pub fn ticket_price_sol(&self) -> (price: u64)
        ensures
            price == self@.config.ticket_price_sol,
    {
        self.ticket_price_sol
    }

    pub fn whitelisted(&self) -> (flag: bool)
        ensures
            flag == self@.config.whitelisted,
    {
        self.whitelisted
    }
}

impl Default for RafflePool {
    /// The record with every field zero: a raffle with a cap of zero, which
    /// takes no entrant.
    fn default() -> (pool: RafflePool)
        ensures
            pool@.config.is_blank(),
            pool@ == RaffleState::fresh(pool@.config),
            forall|i: int| 0 <= i < MAX_WINNERS ==> !pool@.claimed[i],
            pool@.wf(),
    {
        let pool = RafflePool {
            creator: Identity::default(),
            nft_mint: Identity::default(),
            count: 0,
            winner_count: 0,
            no_repeat: false,
            max_entrants: 0,
            start_timestamp: 0,
            end_timestamp: 0,
            ticket_price_booga: 0,
            ticket_price_zion: 0,
            ticket_price_sol: 0,
            whitelisted: false,
            claimed_winner: [false; MAX_WINNERS],
            indexes: [0u64; MAX_WINNERS],
            winner: Identity::zeros(),
            entrants: Identity::zeros(),
        };
        assert(pool@ =~= RaffleState::fresh(pool@.config)) by {
            assert(pool@.entrants =~= Seq::<Identity>::empty());
            assert(pool@.indexes =~= Seq::<u64>::empty());
            assert(pool@.claimed =~= Seq::new(MAX_WINNERS as nat, |i: int| false));
        }
        proof {
            RaffleState::lemma_fresh_is_wf(pool@.config);
        }
        pool
    }
}

} // verus!
