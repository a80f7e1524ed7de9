use crate::address::{checksum_text, text_of, Address};
use crate::record::{absent_record, record_wf, PlayerInfo, PlayerView};
use crate::store::{
    lemma_lookup_absent, lemma_lookup_found, lemma_lookup_push, lemma_lookup_update, lookup,
};
use vstd::prelude::*;

verus! {

/// Why an operation was refused. Every failure aborts the whole operation:
/// a refused call leaves the registry exactly as it was.
#[derive(Clone, Copy, PartialEq, Eq, Structural, Debug)]
pub enum RegistryError {
    /// `init` was called on a registry that is already initialized.
    AlreadyInitialized,
    /// A collaborator address was set by a caller other than the owner.
    NotOwner,
    /// A ledger update came from a caller other than the configured
    /// collaborator for that ledger.
    Unauthorized,
    /// A read targeted an account whose record does not exist.
    PlayerNotFound,
    /// A counter increment would have exceeded its 64-bit range.
    CounterOverflow,
}

impl RegistryError {
    /// The reason text of each error.
    pub open spec fn message_spec(self) -> Seq<char> {
        match self {
            RegistryError::AlreadyInitialized => "Contract has already been initialized"@,
            RegistryError::NotOwner => "Only the owner can set contract addresses"@,
            RegistryError::Unauthorized => "Caller is not authorized to update results"@,
            RegistryError::PlayerNotFound => "Player does not exist"@,
            RegistryError::CounterOverflow => "Counter overflow"@,
        }
    }

    /// The reason string handed to callers when an operation aborts.
    pub fn message(&self) -> (r: String)
        ensures
            r@ == self.message_spec(),
    {
        match self {
            RegistryError::AlreadyInitialized => String::from_str(
                "Contract has already been initialized",
            ),
            RegistryError::NotOwner => String::from_str("Only the owner can set contract addresses"),
            RegistryError::Unauthorized => String::from_str(
                "Caller is not authorized to update results",
            ),
            RegistryError::PlayerNotFound => String::from_str("Player does not exist"),
            RegistryError::CounterOverflow => String::from_str("Counter overflow"),
        }
    }
}

/// The registry: a configuration singleton and one open-ended table of
/// player records keyed by account identity. Callers are identified by an
/// explicit `caller` argument, handed in by whatever delivers the identity
/// of the account that invoked the current operation.
pub struct PlayerInfoContract {
    initialized: bool,
    owner: Address,
    matchmaking_contract: Address,
    prediction_contract: Address,
    players: Vec<(Address, PlayerInfo)>,
}

impl PlayerInfoContract {
    /// Whether `init` has already run.
    pub closed spec fn spec_initialized(self) -> bool {
        self.initialized
    }

    /// The owner fixed at initialization; the zero identity before that.
    pub closed spec fn spec_owner(self) -> Address {
        self.owner
    }

    /// The collaborator allowed to report match results.
    pub closed spec fn spec_matchmaking(self) -> Address {
        self.matchmaking_contract
    }

    /// The collaborator allowed to report prediction results.
    pub closed spec fn spec_prediction(self) -> Address {
        self.prediction_contract
    }

    /// The record the registry holds for `a`: the stored one, or the absent
    /// default for an account never written to.
    pub closed spec fn record_of(self, a: Address) -> PlayerView {
        lookup(self.players@, a)
    }

    /// Every record the registry can answer with is well-formed.
    pub open spec fn wf(self) -> bool {
        forall|a: Address| record_wf(#[trigger] self.record_of(a))
    }

    /// The configuration singleton is untouched.
    pub open spec fn config_unchanged(pre: Self, post: Self) -> bool {
        &&& post.spec_initialized() == pre.spec_initialized()
        &&& post.spec_owner() == pre.spec_owner()
        &&& post.spec_matchmaking() == pre.spec_matchmaking()
        &&& post.spec_prediction() == pre.spec_prediction()
    }

    /// No record is touched.
    pub open spec fn records_unchanged(pre: Self, post: Self) -> bool {
        forall|b: Address| #[trigger] post.record_of(b) == pre.record_of(b)
    }

    /// No record but possibly `a`'s is touched.
    pub open spec fn records_unchanged_except(pre: Self, post: Self, a: Address) -> bool {
        forall|b: Address| b != a ==> #[trigger] post.record_of(b) == pre.record_of(b)
    }

    /// A freshly deployed registry: not initialized, all configured addresses
    /// zero, and no record stored for any account.
    pub fn new() -> (r: Self)
        ensures
            !r.spec_initialized(),
            r.spec_owner() == Address::zero_spec(),
            r.spec_matchmaking() == Address::zero_spec(),
            r.spec_prediction() == Address::zero_spec(),
            forall|a: Address| #[trigger] r.record_of(a) == absent_record(),
            r.wf(),
    {
        let r = PlayerInfoContract {
            initialized: false,
            owner: Address::zero(),
            matchmaking_contract: Address::zero(),
            prediction_contract: Address::zero(),
            players: Vec::new(),
        };
        proof {
            assert forall|a: Address| #[trigger] r.record_of(a) == absent_record() by {
                assert(r.players@.len() == 0);
            }
        }
        r
    }

    /// The record stored for `a`, or the absent default: the
    /// storage-or-default read that the backing table gives every key.
    pub fn get_record(&self, a: Address) -> (r: PlayerInfo)
        ensures
            r@ == self.record_of(a),
    {
        let n = self.players.len();
        let mut i: usize = 0;
        while i < n
            invariant
                n == self.players@.len(),
                i <= n,
                forall|j: int| 0 <= j < i ==> (#[trigger] self.players@[j]).0 != a,
            decreases n - i,
        {
            if self.players[i].0 == a {
                proof {
                    lemma_lookup_found(self.players@, a, i as int);
                }
                return self.players[i].1.duplicate();
            }
            i = i + 1;
        }
        proof {
            lemma_lookup_absent(self.players@, a);
        }
        PlayerInfo::absent()
    }

    /// Stores `r` as the record of `a`, overwriting any earlier one.
    fn put_record(&mut self, a: Address, r: PlayerInfo)
        ensures
            final(self).record_of(a) == r@,
            Self::records_unchanged_except(*old(self), *final(self), a),
            Self::config_unchanged(*old(self), *final(self)),
    {
        let n = self.players.len();
        let mut i: usize = 0;
        while i < n
            invariant
                *self == *old(self),
                n == self.players@.len(),
                i <= n,
                forall|j: int| 0 <= j < i ==> (#[trigger] self.players@[j]).0 != a,
            decreases n - i,
        {
            if self.players[i].0 == a {
                self.players[i] = (a, r);
                proof {
                    lemma_lookup_update(old(self).players@, a, i as int, r, a);
                    assert forall|b: Address| b != a implies #[trigger] self.record_of(b)
                        == old(self).record_of(b) by {
                        lemma_lookup_update(old(self).players@, a, i as int, r, b);
                    }
                }
                return ;
            }
            i = i + 1;
        }
        self.players.push((a, r));
        proof {
            lemma_lookup_push(old(self).players@, a, r, a);
            assert forall|b: Address| b != a implies #[trigger] self.record_of(b) == old(
                self,
            ).record_of(b) by {
                lemma_lookup_push(old(self).players@, a, r, b);
            }
        }
    }

    /// Restores the configuration singleton from values held elsewhere,
    /// leaving every record as it is.
    pub fn load_config(
        &mut self,
        initialized: bool,
        owner: Address,
        matchmaking_contract: Address,
        prediction_contract: Address,
    )
        ensures
            final(self).spec_initialized() == initialized,
            final(self).spec_owner() == owner,
            final(self).spec_matchmaking() == matchmaking_contract,
            final(self).spec_prediction() == prediction_contract,
            Self::records_unchanged(*old(self), *final(self)),
            old(self).wf() ==> final(self).wf(),
    {
        self.initialized = initialized;
        self.owner = owner;
        self.matchmaking_contract = matchmaking_contract;
        self.prediction_contract = prediction_contract;
        proof {
            assert forall|b: Address| #[trigger] self.record_of(b) == old(self).record_of(b) by {}
        }
    }

    /// Restores one stored record from a value held elsewhere.
    pub fn load_record(&mut self, a: Address, rec: PlayerInfo)
        requires
            old(self).wf(),
            record_wf(rec@),
        ensures
            final(self).wf(),
            final(self).record_of(a) == rec@,
            Self::records_unchanged_except(*old(self), *final(self), a),
            Self::config_unchanged(*old(self), *final(self)),
    {
        self.put_record(a, rec);
        proof {
            assert forall|b: Address| record_wf(#[trigger] self.record_of(b)) by {
                if b != a {
                    assert(self.record_of(b) == old(self).record_of(b));
                }
            }
        }
    }

    /// What `init` does: from an uninitialized registry it succeeds, marks
    /// the registry initialized and makes the caller the owner; on an
    /// initialized one it fails with `AlreadyInitialized` and changes
    /// nothing. Records are never touched.
    pub open spec fn init_post(
        pre: Self,
        caller: Address,
        post: Self,
        r: Result<(), RegistryError>,
    ) -> bool {
        if pre.spec_initialized() {
            r == Err::<(), RegistryError>(RegistryError::AlreadyInitialized) && post == pre
        } else {
            &&& r == Ok::<(), RegistryError>(())
            &&& post.spec_initialized()
            &&& post.spec_owner() == caller
            &&& post.spec_matchmaking() == pre.spec_matchmaking()
            &&& post.spec_prediction() == pre.spec_prediction()
            &&& Self::records_unchanged(pre, post)
        }
    }

    /// One-time initialization: fixes the caller as owner. A second call
    /// always fails.
    pub fn init(&mut self, caller: Address) -> (r: Result<(), RegistryError>)
        requires
            old(self).wf(),
        ensures
            final(self).wf(),
            Self::init_post(*old(self), caller, *final(self), r),
    {
        if self.initialized {
            return Err(RegistryError::AlreadyInitialized);
        }
        self.initialized = true;
        self.owner = caller;
        proof {
            assert forall|b: Address| #[trigger] self.record_of(b) == old(self).record_of(b) by {}
        }
        Ok(())
    }

    /// Reads the configured matchmaking collaborator; the zero identity if
    /// it was never set.
    pub fn get_matchmaking_contract(&self) -> (r: Address)
        ensures
            r == self.spec_matchmaking(),
    {
        self.matchmaking_contract
    }

    /// Reads the configured prediction collaborator; the zero identity if it
    /// was never set.
    pub fn get_prediction_contract(&self) -> (r: Address)
        ensures
            r == self.spec_prediction(),
    {
        self.prediction_contract
    }

    /// Reads the owner; the zero identity before initialization.
    pub fn get_owner(&self) -> (r: Address)
        ensures
            r == self.spec_owner(),
    {
        self.owner
    }

    /// Whether `init` has already run.
    pub fn get_initialized(&self) -> (r: bool)
        ensures
            r == self.spec_initialized(),
    {
        self.initialized
    }

    /// What setting the matchmaking collaborator does: only the owner may do
    /// it; on success the address is overwritten unconditionally and nothing
    /// else changes, so any earlier collaborator loses its write right at
    /// once.
    pub open spec fn set_matchmaking_post(
        pre: Self,
        caller: Address,
        addr: Address,
        post: Self,
        r: Result<(), RegistryError>,
    ) -> bool {
        if caller != pre.spec_owner() {
            r == Err::<(), RegistryError>(RegistryError::NotOwner) && post == pre
        } else {
            &&& r == Ok::<(), RegistryError>(())
            &&& post.spec_matchmaking() == addr
            &&& post.spec_initialized() == pre.spec_initialized()
            &&& post.spec_owner() == pre.spec_owner()
            &&& post.spec_prediction() == pre.spec_prediction()
            &&& Self::records_unchanged(pre, post)
        }
    }

    /// Owner-gated setter for the matchmaking collaborator.
    pub fn set_matchmaking_contract(&mut self, caller: Address, matchmaking_contract: Address) -> (r:
        Result<(), RegistryError>)
        requires
            old(self).wf(),
        ensures
            final(self).wf(),
            Self::set_matchmaking_post(*old(self), caller, matchmaking_contract, *final(self), r),
    {
        if self.owner != caller {
            return Err(RegistryError::NotOwner);
        }
        self.matchmaking_contract = matchmaking_contract;
        proof {
            assert forall|b: Address| #[trigger] self.record_of(b) == old(self).record_of(b) by {}
        }
        Ok(())
    }

    /// What setting the prediction collaborator does; the mirror image of
    /// `set_matchmaking_post`.
    pub open spec fn set_prediction_post(
        pre: Self,
        caller: Address,
        addr: Address,
        post: Self,
        r: Result<(), RegistryError>,
    ) -> bool {
        if caller != pre.spec_owner() {
            r == Err::<(), RegistryError>(RegistryError::NotOwner) && post == pre
        } else {
            &&& r == Ok::<(), RegistryError>(())
            &&& post.spec_prediction() == addr
            &&& post.spec_initialized() == pre.spec_initialized()
            &&& post.spec_owner() == pre.spec_owner()
            &&& post.spec_matchmaking() == pre.spec_matchmaking()
            &&& Self::records_unchanged(pre, post)
        }
    }

    /// Owner-gated setter for the prediction collaborator.
    pub fn set_prediction_contract(&mut self, caller: Address, prediction_contract: Address) -> (r:
        Result<(), RegistryError>)
        requires
            old(self).wf(),
        ensures
            final(self).wf(),
            Self::set_prediction_post(*old(self), caller, prediction_contract, *final(self), r),
    {
        if self.owner != caller {
            return Err(RegistryError::NotOwner);
        }
        self.prediction_contract = prediction_contract;
        proof {
            assert forall|b: Address| #[trigger] self.record_of(b) == old(self).record_of(b) by {}
        }
        Ok(())
    }

    /// What registering `target` does: it always succeeds, marks the record
    /// as existing and resets the display name to the textual form of the
    /// account's own identity; counters and every other record are untouched.
    pub open spec fn register_post(
        pre: Self,
        target: Address,
        post: Self,
        r: Result<(), RegistryError>,
    ) -> bool {
        &&& r == Ok::<(), RegistryError>(())
        &&& Self::config_unchanged(pre, post)
        &&& post.record_of(target) == (PlayerView {
            exists: true,
            display_name: text_of(target.hi, target.lo, target.tail),
            ..pre.record_of(target)
        })
        &&& Self::records_unchanged_except(pre, post, target)
    }

    /// Self-service registration of the caller.
    pub fn register_player(&mut self, caller: Address) -> (r: Result<(), RegistryError>)
        requires
            old(self).wf(),
        ensures
            final(self).wf(),
            Self::register_post(*old(self), caller, *final(self), r),
    {
        self.register_player_with_address(caller)
    }

    /// Registration of an arbitrary account. Re-registration is not an
    /// error: it resets the display name back to the default.
    pub fn register_player_with_address(&mut self, player_address: Address) -> (r: Result<
        (),
        RegistryError,
    >)
        requires
            old(self).wf(),
        ensures
            final(self).wf(),
            Self::register_post(*old(self), player_address, *final(self), r),
    {
        let mut rec = self.get_record(player_address);
        rec.exists = true;
        rec.display_name = checksum_text(&player_address);
        self.put_record(player_address, rec);
        proof {
            assert forall|b: Address| record_wf(#[trigger] self.record_of(b)) by {
                if b != player_address {
                    assert(self.record_of(b) == old(self).record_of(b));
                }
            }
        }
        Ok(())
    }

    /// What a display-name update by `caller` does: it always succeeds; the
    /// caller's record exists afterwards and carries the new name, its
    /// counters and every other record are untouched.
    pub open spec fn update_name_post(
        pre: Self,
        caller: Address,
        name: Seq<char>,
        post: Self,
        r: Result<(), RegistryError>,
    ) -> bool {
        &&& r == Ok::<(), RegistryError>(())
        &&& Self::config_unchanged(pre, post)
        &&& post.record_of(caller) == (PlayerView {
            exists: true,
            display_name: name,
            ..pre.record_of(caller)
        })
        &&& Self::records_unchanged_except(pre, post, caller)
    }

    /// Overwrites the caller's display name. A caller with no record is
    /// first registered — the explicit auto-registration policy — and the
    /// name is stored after that, so the call never fails.
    pub fn update_display_name(&mut self, caller: Address, display_name: String) -> (r: Result<
        (),
        RegistryError,
    >)
        requires
            old(self).wf(),
        ensures
            final(self).wf(),
            Self::update_name_post(*old(self), caller, display_name@, *final(self), r),
    {
        let rec0 = self.get_record(caller);
        if !rec0.exists {
            match self.register_player(caller) {
                Ok(()) => {},
                Err(e) => {
                    return Err(e);
                },
            }
        }
        let mut rec = self.get_record(caller);
        rec.display_name = display_name;
        self.put_record(caller, rec);
        proof {
            assert forall|b: Address| record_wf(#[trigger] self.record_of(b)) by {
                if b != caller {
                    assert(self.record_of(b) == old(self).record_of(b));
                }
            }
        }
        Ok(())
    }

    /// What a display-name read of `target` answers: the stored name if the
    /// record exists, and `PlayerNotFound` if it does not.
    pub open spec fn name_read_post(pre: Self, target: Address, r: Result<
        String,
        RegistryError,
    >) -> bool {
        if pre.record_of(target).exists {
            r matches Ok(name) && name@ == pre.record_of(target).display_name
        } else {
            r == Err::<String, RegistryError>(RegistryError::PlayerNotFound)
        }
    }

    /// Reads the caller's own display name.
    pub fn get_display_name(&self, caller: Address) -> (r: Result<String, RegistryError>)
        ensures
            Self::name_read_post(*self, caller, r),
    {
        self.get_display_name_by_address(caller)
    }

    /// Reads any account's display name.
    pub fn get_display_name_by_address(&self, player_address: Address) -> (r: Result<
        String,
        RegistryError,
    >)
        ensures
            Self::name_read_post(*self, player_address, r),
    {
        let rec = self.get_record(player_address);
        if !rec.exists {
            return Err(RegistryError::PlayerNotFound);
        }
        Ok(rec.display_name)
    }

    /// What a counter read answers: `value` if the target's record exists,
    /// and `PlayerNotFound` if it does not.
    pub open spec fn counter_read_post(
        pre: Self,
        target: Address,
        value: u64,
        r: Result<u64, RegistryError>,
    ) -> bool {
        if pre.record_of(target).exists {
            r == Ok::<u64, RegistryError>(value)
        } else {
            r == Err::<u64, RegistryError>(RegistryError::PlayerNotFound)
        }
    }

    /// Whether one more match result for `winner` and `loser` would push a
    /// counter past its 64-bit range.
    pub open spec fn match_overflow(pre: Self, winner: Address, loser: Address) -> bool {
        ||| pre.record_of(winner).total_matches == u64::MAX
        ||| pre.record_of(winner).winning_matches == u64::MAX
        ||| (winner != loser && pre.record_of(loser).total_matches == u64::MAX)
    }

    /// What reporting a match result does. Only the configured matchmaking
    /// collaborator may report; an increment past the 64-bit range aborts
    /// with `CounterOverflow`; otherwise the winner gains one total and one
    /// winning match, the loser one total match, both records exist
    /// afterwards, and nothing else changes. A match of an account against
    /// itself counts once.
    pub open spec fn match_results_post(
        pre: Self,
        caller: Address,
        winner: Address,
        loser: Address,
        post: Self,
        r: Result<(), RegistryError>,
    ) -> bool {
        if caller != pre.spec_matchmaking() {
            r == Err::<(), RegistryError>(RegistryError::Unauthorized) && post == pre
        } else if Self::match_overflow(pre, winner, loser) {
            r == Err::<(), RegistryError>(RegistryError::CounterOverflow) && post == pre
        } else if winner == loser {
            &&& r == Ok::<(), RegistryError>(())
            &&& Self::config_unchanged(pre, post)
            &&& post.record_of(winner) == (PlayerView {
                exists: true,
                total_matches: (pre.record_of(winner).total_matches + 1) as u64,
                winning_matches: (pre.record_of(winner).winning_matches + 1) as u64,
                ..pre.record_of(winner)
            })
            &&& Self::records_unchanged_except(pre, post, winner)
        } else {
            &&& r == Ok::<(), RegistryError>(())
            &&& Self::config_unchanged(pre, post)
            &&& post.record_of(winner) == (PlayerView {
                exists: true,
                total_matches: (pre.record_of(winner).total_matches + 1) as u64,
                winning_matches: (pre.record_of(winner).winning_matches + 1) as u64,
                ..pre.record_of(winner)
            })
            &&& post.record_of(loser) == (PlayerView {
                exists: true,
                total_matches: (pre.record_of(loser).total_matches + 1) as u64,
                ..pre.record_of(loser)
            })
            &&& forall|b: Address|
                b != winner && b != loser ==> #[trigger] post.record_of(b) == pre.record_of(b)
        }
    }

    /// Records one finished match, reported by the matchmaking collaborator.
    pub fn add_match_results(
        &mut self,
        caller: Address,
        winner_address: Address,
        loser_address: Address,
    ) -> (r: Result<(), RegistryError>)
        requires
            old(self).wf(),
        ensures
            final(self).wf(),
            Self::match_results_post(
                *old(self),
                caller,
                winner_address,
                loser_address,
                *final(self),
                r,
            ),
    {
        if self.matchmaking_contract != caller {
            return Err(RegistryError::Unauthorized);
        }
        let winner_rec = self.get_record(winner_address);
        let loser_rec = self.get_record(loser_address);
        if winner_rec.total_matches == u64::MAX || winner_rec.winning_matches == u64::MAX || (
        winner_address != loser_address && loser_rec.total_matches == u64::MAX) {
            return Err(RegistryError::CounterOverflow);
        }
        if winner_address == loser_address {
            let mut rec = winner_rec;
            rec.exists = true;
            rec.total_matches = rec.total_matches + 1;
            rec.winning_matches = rec.winning_matches + 1;
            self.put_record(winner_address, rec);
            proof {
                assert forall|b: Address| record_wf(#[trigger] self.record_of(b)) by {
                    if b != winner_address {
                        assert(self.record_of(b) == old(self).record_of(b));
                    }
                }
            }
            return Ok(());
        }
        let mut new_winner = winner_rec;
        new_winner.exists = true;
        new_winner.total_matches = new_winner.total_matches + 1;
        new_winner.winning_matches = new_winner.winning_matches + 1;
        self.put_record(winner_address, new_winner);
        let mut new_loser = loser_rec;
        new_loser.exists = true;
        new_loser.total_matches = new_loser.total_matches + 1;
        self.put_record(loser_address, new_loser);
        proof {
            assert forall|b: Address| record_wf(#[trigger] self.record_of(b)) by {
                if b != winner_address && b != loser_address {
                    assert(self.record_of(b) == old(self).record_of(b));
                }
            }
        }
        Ok(())
    }

    /// Reads the caller's total match counter.
    pub fn get_total_matches(&self, caller: Address) -> (r: Result<u64, RegistryError>)
        ensures
            Self::counter_read_post(*self, caller, self.record_of(caller).total_matches, r),
    {
        self.get_total_matches_by_address(caller)
    }

    /// Reads any account's total match counter.
    pub fn get_total_matches_by_address(&self, player_address: Address) -> (r: Result<
        u64,
        RegistryError,
    >)
        ensures
            Self::counter_read_post(
                *self,
                player_address,
                self.record_of(player_address).total_matches,
                r,
            ),
    {
        let rec = self.get_record(player_address);
        if !rec.exists {
            return Err(RegistryError::PlayerNotFound);
        }
        Ok(rec.total_matches)
    }

    /// Reads the caller's winning match counter.
    pub fn get_winning_matches(&self, caller: Address) -> (r: Result<u64, RegistryError>)
        ensures
            Self::counter_read_post(*self, caller, self.record_of(caller).winning_matches, r),
    {
        self.get_winning_matches_by_address(caller)
    }

    /// Reads any account's winning match counter.
    pub fn get_winning_matches_by_address(&self, player_address: Address) -> (r: Result<
        u64,
        RegistryError,
    >)
        ensures
            Self::counter_read_post(
                *self,
                player_address,
                self.record_of(player_address).winning_matches,
                r,
            ),
    {
        let rec = self.get_record(player_address);
        if !rec.exists {
            return Err(RegistryError::PlayerNotFound);
        }
        Ok(rec.winning_matches)
    }

    /// Whether one more prediction result for `target` would push a counter
    /// past its 64-bit range.
    pub open spec fn prediction_overflow(pre: Self, target: Address, was_won: bool) -> bool {
        ||| pre.record_of(target).total_predictions == u64::MAX
        ||| (was_won && pre.record_of(target).winning_predictions == u64::MAX)
    }

    /// What reporting a prediction result does. Only the configured
    /// prediction collaborator may report; an increment past the 64-bit
    /// range aborts with `CounterOverflow`; otherwise the target gains one
    /// total prediction, one winning prediction exactly when the prediction
    /// was won, its record exists afterwards, and nothing else changes.
    pub open spec fn prediction_results_post(
        pre: Self,
        caller: Address,
        target: Address,
        was_won: bool,
        post: Self,
        r: Result<(), RegistryError>,
    ) -> bool {
        if caller != pre.spec_prediction() {
            r == Err::<(), RegistryError>(RegistryError::Unauthorized) && post == pre
        } else if Self::prediction_overflow(pre, target, was_won) {
            r == Err::<(), RegistryError>(RegistryError::CounterOverflow) && post == pre
        } else {
            &&& r == Ok::<(), RegistryError>(())
            &&& Self::config_unchanged(pre, post)
            &&& post.record_of(target) == (PlayerView {
                exists: true,
                total_predictions: (pre.record_of(target).total_predictions + 1) as u64,
                winning_predictions: if was_won {
                    (pre.record_of(target).winning_predictions + 1) as u64
                } else {
                    pre.record_of(target).winning_predictions
                },
                ..pre.record_of(target)
            })
            &&& Self::records_unchanged_except(pre, post, target)
        }
    }

    /// Records one finished prediction, reported by the prediction
    /// collaborator.
    pub fn add_prediction_results(
        &mut self,
        caller: Address,
        player_address: Address,
        was_won: bool,
    ) -> (r: Result<(), RegistryError>)
        requires
            old(self).wf(),
        ensures
            final(self).wf(),
            Self::prediction_results_post(*old(self), caller, player_address, was_won, *final(self), r),
    {
        if self.prediction_contract != caller {
            return Err(RegistryError::Unauthorized);
        }
        let mut rec = self.get_record(player_address);
        if rec.total_predictions == u64::MAX || (was_won && rec.winning_predictions == u64::MAX) {
            return Err(RegistryError::CounterOverflow);
        }
        rec.exists = true;
        rec.total_predictions = rec.total_predictions + 1;
        if was_won {
            rec.winning_predictions = rec.winning_predictions + 1;
        }
        self.put_record(player_address, rec);
        proof {
            assert forall|b: Address| record_wf(#[trigger] self.record_of(b)) by {
                if b != player_address {
                    assert(self.record_of(b) == old(self).record_of(b));
                }
            }
        }
        Ok(())
    }

    /// Reads the caller's total prediction counter.
    pub fn get_total_predictions(&self, caller: Address) -> (r: Result<u64, RegistryError>)
        ensures
            Self::counter_read_post(*self, caller, self.record_of(caller).total_predictions, r),
    {
        self.get_total_predictions_by_address(caller)
    }

    /// Reads any account's total prediction counter.
    pub fn get_total_predictions_by_address(&self, player_address: Address) -> (r: Result<
        u64,
        RegistryError,
    >)
        ensures
            Self::counter_read_post(
                *self,
                player_address,
                self.record_of(player_address).total_predictions,
                r,
            ),
    {
        let rec = self.get_record(player_address);
        if !rec.exists {
            return Err(RegistryError::PlayerNotFound);
        }
        Ok(rec.total_predictions)
    }

    /// Reads the caller's winning prediction counter.
    pub fn get_winning_predictions(&self, caller: Address) -> (r: Result<u64, RegistryError>)
        ensures
            Self::counter_read_post(*self, caller, self.record_of(caller).winning_predictions, r),
    {
        self.get_winning_predictions_by_address(caller)
    }

    /// Reads any account's winning prediction counter.
    pub fn get_winning_predictions_by_address(&self, player_address: Address) -> (r: Result<
        u64,
        RegistryError,
    >)
        ensures
            Self::counter_read_post(
                *self,
                player_address,
                self.record_of(player_address).winning_predictions,
                r,
            ),
    {
        let rec = self.get_record(player_address);
        if !rec.exists {
            return Err(RegistryError::PlayerNotFound);
        }
        Ok(rec.winning_predictions)
    }
}

} // verus!
