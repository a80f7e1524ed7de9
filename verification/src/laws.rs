use crate::address::Address;
use crate::record::record_wf;
use crate::registry::{PlayerInfoContract, RegistryError};
use vstd::prelude::*;

verus! {

/// One mutating operation of the registry, with its arguments. Reads are
/// left out: they take `&self` and cannot change the state.
pub enum Op {
    Init,
    SetMatchmakingContract { addr: Address },
    SetPredictionContract { addr: Address },
    RegisterPlayer,
    RegisterPlayerWithAddress { addr: Address },
    UpdateDisplayName { name: Seq<char> },
    AddMatchResults { winner: Address, loser: Address },
    AddPredictionResults { target: Address, was_won: bool },
}

/// The transition relation of the registry: `post` is a state the registry
/// can be in after `caller` performs `op` in state `pre`, whether the
/// operation succeeded or was refused. Each disjunct is exactly the
/// postcondition the corresponding executable method ensures.
pub open spec fn step(
    pre: PlayerInfoContract,
    caller: Address,
    op: Op,
    post: PlayerInfoContract,
) -> bool {
    match op {
        Op::Init => exists|r: Result<(), RegistryError>|
            PlayerInfoContract::init_post(pre, caller, post, r),
        Op::SetMatchmakingContract { addr } => exists|r: Result<(), RegistryError>|
            PlayerInfoContract::set_matchmaking_post(pre, caller, addr, post, r),
        Op::SetPredictionContract { addr } => exists|r: Result<(), RegistryError>|
            PlayerInfoContract::set_prediction_post(pre, caller, addr, post, r),
        Op::RegisterPlayer => exists|r: Result<(), RegistryError>|
            PlayerInfoContract::register_post(pre, caller, post, r),
        Op::RegisterPlayerWithAddress { addr } => exists|r: Result<(), RegistryError>|
            PlayerInfoContract::register_post(pre, addr, post, r),
        Op::UpdateDisplayName { name } => exists|r: Result<(), RegistryError>|
            PlayerInfoContract::update_name_post(pre, caller, name, post, r),
        Op::AddMatchResults { winner, loser } => exists|r: Result<(), RegistryError>|
            PlayerInfoContract::match_results_post(pre, caller, winner, loser, post, r),
        Op::AddPredictionResults { target, was_won } => exists|r: Result<(), RegistryError>|
            PlayerInfoContract::prediction_results_post(pre, caller, target, was_won, post, r),
    }
}

/// A whole run: `post` is reachable from `pre` through the given sequence of
/// (caller, operation) pairs.
pub open spec fn steps(
    pre: PlayerInfoContract,
    trace: Seq<(Address, Op)>,
    post: PlayerInfoContract,
) -> bool
    decreases trace.len(),
{
    if trace.len() == 0 {
        post == pre
    } else {
        exists|mid: PlayerInfoContract|
            #[trigger] step(pre, trace[0].0, trace[0].1, mid) && steps(mid, trace.skip(1), post)
    }
}

/// Initialization succeeds at most once: from an uninitialized state the
/// first call succeeds and fixes its caller as owner; a second call — by
/// anyone — fails with `AlreadyInitialized` and changes nothing, so the
/// owner stays what the first call made it.
pub proof fn lemma_init_once(
    s0: PlayerInfoContract,
    c1: Address,
    s1: PlayerInfoContract,
    r1: Result<(), RegistryError>,
    c2: Address,
    s2: PlayerInfoContract,
    r2: Result<(), RegistryError>,
)
    requires
        !s0.spec_initialized(),
        PlayerInfoContract::init_post(s0, c1, s1, r1),
        PlayerInfoContract::init_post(s1, c2, s2, r2),
    ensures
        r1 == Ok::<(), RegistryError>(()),
        s1.spec_owner() == c1,
        r2 == Err::<(), RegistryError>(RegistryError::AlreadyInitialized),
        s2 == s1,
        s2.spec_owner() == c1,
{
}

/// No operation other than `init` can change the owner, and none other than
/// `init` can change the initialized flag.
pub proof fn lemma_owner_fixed_by_step(
    pre: PlayerInfoContract,
    caller: Address,
    op: Op,
    post: PlayerInfoContract,
)
    requires
        step(pre, caller, op, post),
        !(op is Init),
    ensures
        post.spec_owner() == pre.spec_owner(),
        post.spec_initialized() == pre.spec_initialized(),
{
}

/// Owner immutability: once the registry is initialized, no sequence of
/// operations whatsoever — `init` attempts included — changes the owner, and
/// the registry stays initialized.
pub proof fn lemma_owner_immutable(
    pre: PlayerInfoContract,
    trace: Seq<(Address, Op)>,
    post: PlayerInfoContract,
)
    requires
        pre.spec_initialized(),
        steps(pre, trace, post),
    ensures
        post.spec_initialized(),
        post.spec_owner() == pre.spec_owner(),
    decreases trace.len(),
{
    if trace.len() != 0 {
        let mid = choose|mid: PlayerInfoContract|
            #[trigger] step(pre, trace[0].0, trace[0].1, mid) && steps(mid, trace.skip(1), post);
        if trace[0].1 is Init {
            let r = choose|r: Result<(), RegistryError>|
                PlayerInfoContract::init_post(pre, trace[0].0, mid, r);
            assert(mid == pre);
        } else {
            lemma_owner_fixed_by_step(pre, trace[0].0, trace[0].1, mid);
        }
        lemma_owner_immutable(mid, trace.skip(1), post);
    }
}

/// Authorization for the match ledger: a step that is not
/// `set_matchmaking_contract` leaves the configured matchmaking address as
/// it is; a `set_matchmaking_contract` step installs exactly its argument
/// when the owner makes it and changes nothing otherwise — so a configured
/// collaborator holds its right precisely until the owner names another; and
/// a match-result step by any caller other than the configured address is
/// refused and changes nothing.
pub proof fn lemma_matchmaking_authority(
    pre: PlayerInfoContract,
    caller: Address,
    op: Op,
    post: PlayerInfoContract,
)
    requires
        step(pre, caller, op, post),
    ensures
        !(op is SetMatchmakingContract) ==> post.spec_matchmaking() == pre.spec_matchmaking(),
        op matches Op::SetMatchmakingContract { addr } ==> if caller == pre.spec_owner() {
            post.spec_matchmaking() == addr
        } else {
            post == pre
        },
        op matches Op::AddMatchResults { winner, loser } ==> (caller != pre.spec_matchmaking()
            ==> post == pre),
{
}

/// Through any run that contains no `set_matchmaking_contract` step, the
/// configured matchmaking address — and with it, by
/// `lemma_matchmaking_authority`, the sole right to report match results —
/// stays exactly what it was.
pub proof fn lemma_matchmaking_stable(
    pre: PlayerInfoContract,
    trace: Seq<(Address, Op)>,
    post: PlayerInfoContract,
)
    requires
        steps(pre, trace, post),
        forall|i: int| 0 <= i < trace.len() ==> !((#[trigger] trace[i]).1 is SetMatchmakingContract),
    ensures
        post.spec_matchmaking() == pre.spec_matchmaking(),
    decreases trace.len(),
{
    if trace.len() != 0 {
        let mid = choose|mid: PlayerInfoContract|
            #[trigger] step(pre, trace[0].0, trace[0].1, mid) && steps(mid, trace.skip(1), post);
        lemma_matchmaking_authority(pre, trace[0].0, trace[0].1, mid);
        assert forall|i: int| 0 <= i < trace.skip(1).len() implies !((#[trigger] trace.skip(
            1,
        )[i]).1 is SetMatchmakingContract) by {
            assert(trace.skip(1)[i] == trace[i + 1]);
        }
        lemma_matchmaking_stable(mid, trace.skip(1), post);
    }
}

/// Authorization for the prediction ledger; the mirror image of
/// `lemma_matchmaking_authority`.
pub proof fn lemma_prediction_authority(
    pre: PlayerInfoContract,
    caller: Address,
    op: Op,
    post: PlayerInfoContract,
)
    requires
        step(pre, caller, op, post),
    ensures
        !(op is SetPredictionContract) ==> post.spec_prediction() == pre.spec_prediction(),
        op matches Op::SetPredictionContract { addr } ==> if caller == pre.spec_owner() {
            post.spec_prediction() == addr
        } else {
            post == pre
        },
        op matches Op::AddPredictionResults { target, was_won } ==> (caller
            != pre.spec_prediction() ==> post == pre),
{
}

/// Counter monotonicity, one step: every operation keeps every record
/// well-formed — in particular `winning_matches <= total_matches` and
/// `winning_predictions <= total_predictions` for every account.
pub proof fn lemma_step_preserves_wf(
    pre: PlayerInfoContract,
    caller: Address,
    op: Op,
    post: PlayerInfoContract,
)
    requires
        pre.wf(),
        step(pre, caller, op, post),
    ensures
        post.wf(),
{
    match op {
        Op::Init => {},
        Op::SetMatchmakingContract { addr } => {},
        Op::SetPredictionContract { addr } => {},
        Op::RegisterPlayer => {
            assert forall|b: Address| record_wf(#[trigger] post.record_of(b)) by {
                assert(record_wf(pre.record_of(b)));
            }
        },
        Op::RegisterPlayerWithAddress { addr } => {
            assert forall|b: Address| record_wf(#[trigger] post.record_of(b)) by {
                assert(record_wf(pre.record_of(b)));
            }
        },
        Op::UpdateDisplayName { name } => {
            assert forall|b: Address| record_wf(#[trigger] post.record_of(b)) by {
                assert(record_wf(pre.record_of(b)));
            }
        },
        Op::AddMatchResults { winner, loser } => {
            assert forall|b: Address| record_wf(#[trigger] post.record_of(b)) by {
                assert(record_wf(pre.record_of(b)));
                assert(record_wf(pre.record_of(winner)));
                assert(record_wf(pre.record_of(loser)));
            }
        },
        Op::AddPredictionResults { target, was_won } => {
            assert forall|b: Address| record_wf(#[trigger] post.record_of(b)) by {
                assert(record_wf(pre.record_of(b)));
                assert(record_wf(pre.record_of(target)));
            }
        },
    }
}

/// Counter monotonicity over whole runs: from a well-formed state, every
/// reachable state is well-formed, so the winning counters never exceed
/// their totals after any sequence of operations.
pub proof fn lemma_wf_preserved(
    pre: PlayerInfoContract,
    trace: Seq<(Address, Op)>,
    post: PlayerInfoContract,
)
    requires
        pre.wf(),
        steps(pre, trace, post),
    ensures
        post.wf(),
    decreases trace.len(),
{
    if trace.len() != 0 {
        let mid = choose|mid: PlayerInfoContract|
            #[trigger] step(pre, trace[0].0, trace[0].1, mid) && steps(mid, trace.skip(1), post);
        lemma_step_preserves_wf(pre, trace[0].0, trace[0].1, mid);
        lemma_wf_preserved(mid, trace.skip(1), post);
    }
}

/// Whether performing `op` as `caller` can write to the record of `a`.
pub open spec fn touches(caller: Address, op: Op, a: Address) -> bool {
    match op {
        Op::Init => false,
        Op::SetMatchmakingContract { addr } => false,
        Op::SetPredictionContract { addr } => false,
        Op::RegisterPlayer => caller == a,
        Op::RegisterPlayerWithAddress { addr } => addr == a,
        Op::UpdateDisplayName { name } => caller == a,
        Op::AddMatchResults { winner, loser } => winner == a || loser == a,
        Op::AddPredictionResults { target, was_won } => target == a,
    }
}

/// A step that does not touch an account leaves its record as it was.
pub proof fn lemma_untouched_step(
    pre: PlayerInfoContract,
    caller: Address,
    op: Op,
    post: PlayerInfoContract,
    a: Address,
)
    requires
        step(pre, caller, op, post),
        !touches(caller, op, a),
    ensures
        post.record_of(a) == pre.record_of(a),
{
}

/// Existence gating: an account that starts without a record, is never
/// registered and is never the target of a ledger update keeps no record
/// through any run, and every read against it — name or counter, by either
/// path — answers `PlayerNotFound`.
pub proof fn lemma_existence_gating(
    pre: PlayerInfoContract,
    trace: Seq<(Address, Op)>,
    post: PlayerInfoContract,
    a: Address,
)
    requires
        steps(pre, trace, post),
        !pre.record_of(a).exists,
        forall|i: int| 0 <= i < trace.len() ==> !touches(trace[i].0, (#[trigger] trace[i]).1, a),
    ensures
        !post.record_of(a).exists,
        forall|r: Result<String, RegistryError>|
            #[trigger] PlayerInfoContract::name_read_post(post, a, r) ==> r == Err::<
                String,
                RegistryError,
            >(RegistryError::PlayerNotFound),
        forall|v: u64, r: Result<u64, RegistryError>|
            #[trigger] PlayerInfoContract::counter_read_post(post, a, v, r) ==> r == Err::<
                u64,
                RegistryError,
            >(RegistryError::PlayerNotFound),
    decreases trace.len(),
{
    if trace.len() != 0 {
        let mid = choose|mid: PlayerInfoContract|
            #[trigger] step(pre, trace[0].0, trace[0].1, mid) && steps(mid, trace.skip(1), post);
        assert(!touches(trace[0].0, trace[0].1, a));
        lemma_untouched_step(pre, trace[0].0, trace[0].1, mid, a);
        assert forall|i: int| 0 <= i < trace.skip(1).len() implies !touches(
            trace.skip(1)[i].0,
            (#[trigger] trace.skip(1)[i]).1,
            a,
        ) by {
            assert(trace.skip(1)[i] == trace[i + 1]);
        }
        lemma_existence_gating(mid, trace.skip(1), post, a);
    }
}

} // verus!
