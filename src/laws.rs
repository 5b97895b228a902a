use vstd::prelude::*;

use crate::ledger::restored;
use crate::stats::{
    count_of, deployed_of, find_id, gained_of, lemma_count_bounds, lemma_find_id, lemma_sum_push,
    lemma_sum_update, ore_of, sum_of, put_record, records_wf, stats_of, total_counted, total_wins,
    upsert_model, win_of, is_deployed, is_latest, stats_with, RoundHistory, RoundResult, RoundStatus, MAX_ROUNDS,
};

verus! {

/// Every sum over `t` equals the one over `s` when `t` is `s` with the record at
/// `i` replaced by one that contributes the same.
proof fn lemma_same_contribution(s: Seq<RoundHistory>, i: int, x: RoundHistory)
    requires
        0 <= i < s.len(),
        win_of(x) == win_of(s[i]),
        count_of(x) == count_of(s[i]),
        ore_of(x) == ore_of(s[i]),
        deployed_of(x) == deployed_of(s[i]),
        gained_of(x) == gained_of(s[i]),
    ensures
        stats_of(s.update(i, x)) == stats_of(s),
{
    lemma_sum_update(s, i, x, |r: RoundHistory| win_of(r));
    lemma_sum_update(s, i, x, |r: RoundHistory| count_of(r));
    lemma_sum_update(s, i, x, |r: RoundHistory| ore_of(r));
    lemma_sum_update(s, i, x, |r: RoundHistory| deployed_of(r));
    lemma_sum_update(s, i, x, |r: RoundHistory| gained_of(r));
}

/// Putting a record into a valid ledger keeps it valid and stores the record.
pub proof fn lemma_put_record_wf(s: Seq<RoundHistory>, r: RoundHistory)
    requires
        records_wf(s),
        s.len() < MAX_ROUNDS,
        r.deployed_sol >= 0,
    ensures
        records_wf(put_record(s, r)),
        find_id(put_record(s, r), r.round_id) >= 0,
        put_record(s, r)[find_id(put_record(s, r), r.round_id)] == r,
{
    lemma_find_id(s, r.round_id);
    let t = put_record(s, r);
    lemma_find_id(t, r.round_id);
    if find_id(s, r.round_id) >= 0 {
        assert(t[find_id(s, r.round_id)] == r);
    } else {
        assert(t[s.len() as int] == r);
    }
}

/// A skipped round never changes the statistics: upserting one, where no
/// deployed record holds its id, leaves the statistics over the stored records
/// as they were.
pub proof fn lemma_skipped_round_changes_nothing(
    s: Seq<RoundHistory>,
    round_id: u64,
    timestamp: String,
    deployed_sol: i64,
    gained_sol: i64,
    gained_ore: i64,
    result: RoundResult,
)
    requires
        records_wf(s),
        forall|i: int| 0 <= i < s.len() && s[i].round_id == round_id ==> !is_deployed(s[i]),
    ensures
        stats_of(
            upsert_model(
                s,
                round_id,
                timestamp,
                RoundStatus::Skipped,
                deployed_sol,
                gained_sol,
                gained_ore,
                result,
            ),
        ) == stats_of(s),
{
    let t = upsert_model(
        s,
        round_id,
        timestamp,
        RoundStatus::Skipped,
        deployed_sol,
        gained_sol,
        gained_ore,
        result,
    );
    lemma_find_id(s, round_id);
    let k = find_id(s, round_id);
    if k >= 0 {
        lemma_same_contribution(s, k, t[k]);
        assert(t == s.update(k, t[k]));
    } else {
        let x = t[s.len() as int];
        assert(t == s.push(x));
        lemma_sum_push(s, x, |r: RoundHistory| win_of(r));
        lemma_sum_push(s, x, |r: RoundHistory| count_of(r));
        lemma_sum_push(s, x, |r: RoundHistory| ore_of(r));
        lemma_sum_push(s, x, |r: RoundHistory| deployed_of(r));
        lemma_sum_push(s, x, |r: RoundHistory| gained_of(r));
    }
}

/// The deployed records of `s`, in order.
pub open spec fn deployed_records(s: Seq<RoundHistory>) -> Seq<RoundHistory> {
    s.filter(|r: RoundHistory| is_deployed(r))
}

proof fn lemma_sum_over_deployed(s: Seq<RoundHistory>, f: spec_fn(RoundHistory) -> int)
    requires
        forall|r: RoundHistory| !is_deployed(r) ==> f(r) == 0,
    ensures
        sum_of(s, f) == sum_of(deployed_records(s), f),
    decreases s.len(),
{
    reveal(Seq::filter);
    if s.len() > 0 {
        lemma_sum_over_deployed(s.drop_last(), f);
        if is_deployed(s.last()) {
            lemma_sum_push(deployed_records(s.drop_last()), s.last(), f);
        }
    }
}

/// Skipped records never change any aggregate: the statistics over the stored
/// records are those over the deployed records alone, and the number of rounds
/// counted is the number of deployed records.
pub proof fn lemma_stats_over_deployed_only(s: Seq<RoundHistory>)
    ensures
        stats_of(s) == stats_of(deployed_records(s)),
        total_counted(s) == deployed_records(s).len(),
{
    lemma_sum_over_deployed(s, |r: RoundHistory| win_of(r));
    lemma_sum_over_deployed(s, |r: RoundHistory| count_of(r));
    lemma_sum_over_deployed(s, |r: RoundHistory| ore_of(r));
    lemma_sum_over_deployed(s, |r: RoundHistory| deployed_of(r));
    lemma_sum_over_deployed(s, |r: RoundHistory| gained_of(r));
    lemma_counted_all(deployed_records(s));
}

/// Over records that are all deployed, every record is counted.
proof fn lemma_counted_all(s: Seq<RoundHistory>)
    requires
        forall|i: int| 0 <= i < s.len() ==> is_deployed(s[i]),
    ensures
        total_counted(s) == s.len(),
    decreases s.len(),
{
    if s.len() > 0 {
        lemma_counted_all(s.drop_last());
    }
}

/// The win rate lies between 0 and 100 percent, and is always defined.
pub proof fn lemma_win_rate_range(s: Seq<RoundHistory>)
    requires
        records_wf(s),
    ensures
        stats_of(s).wf(),
        stats_of(s).win_rate_fraction().1 > 0,
        0 <= stats_of(s).win_rate_fraction().0 <= 100 * stats_of(s).win_rate_fraction().1,
{
    lemma_stats_bounds(s);
}

/// The win rate is 0 exactly when no deployed round was a win; in particular
/// it is 0 when no deployed round is stored.
pub proof fn lemma_win_rate_zero_iff_no_win(s: Seq<RoundHistory>)
    requires
        records_wf(s),
    ensures
        stats_of(s).win_rate_fraction().0 == 0 <==> total_wins(s) == 0,
        total_counted(s) == 0 ==> stats_of(s).win_rate_fraction().0 == 0,
{
    lemma_stats_bounds(s);
}

/// The snapshot an upsert embeds, with its round folded in, is well formed:
/// its win rate lies between 0 and 100 percent and both ratios are defined.
pub proof fn lemma_snapshot_well_formed(
    s: Seq<RoundHistory>,
    deployed_sol: i64,
    gained_sol: i64,
    gained_ore: i64,
)
    requires
        records_wf(s),
        s.len() < MAX_ROUNDS,
    ensures
        ({
            let h = stats_with(s, deployed_sol as int, gained_sol as int, gained_ore as int);
            &&& h.wf()
            &&& h.win_rate_fraction().1 > 0
            &&& 0 <= h.win_rate_fraction().0 <= 100 * h.win_rate_fraction().1
            &&& h.profit_loss_fraction().1 > 0
        }),
{
    lemma_count_bounds(s);
    lemma_sum_ranges(s);
}

/// The sums over a valid ledger fit the statistics' integer types.
proof fn lemma_stats_bounds(s: Seq<RoundHistory>)
    requires
        records_wf(s),
    ensures
        stats_of(s).wf(),
        stats_of(s).win_count == total_wins(s),
        stats_of(s).total_count == total_counted(s),
{
    lemma_count_bounds(s);
    lemma_sum_ranges(s);
}

proof fn lemma_sum_ranges(s: Seq<RoundHistory>)
    requires
        forall|i: int| 0 <= i < s.len() ==> s[i].deployed_sol >= 0,
        s.len() <= MAX_ROUNDS,
    ensures
        -(s.len() * 0x8000_0000_0000_0000) <= crate::stats::total_ore_of(s) <= s.len()
            * 0x7fff_ffff_ffff_ffff,
        0 <= crate::stats::total_deployed_of(s) <= s.len() * 0x7fff_ffff_ffff_ffff,
        -(s.len() * 0x8000_0000_0000_0000) <= crate::stats::total_gained_of(s) <= s.len()
            * 0x7fff_ffff_ffff_ffff,
    decreases s.len(),
{
    if s.len() > 0 {
        lemma_sum_ranges(s.drop_last());
    }
}

proof fn lemma_sum_remove(t: Seq<RoundHistory>, k: int, f: spec_fn(RoundHistory) -> int)
    requires
        0 <= k < t.len(),
    ensures
        sum_of(t, f) == sum_of(t.remove(k), f) + f(t[k]),
    decreases t.len(),
{
    if k == t.len() - 1 {
        assert(t.remove(k) =~= t.drop_last());
    } else {
        assert(t.remove(k).drop_last() =~= t.drop_last().remove(k));
        assert(t.remove(k).last() == t.last());
        lemma_sum_remove(t.drop_last(), k, f);
    }
}

proof fn lemma_sum_permutation(s: Seq<RoundHistory>, t: Seq<RoundHistory>, f: spec_fn(RoundHistory) -> int)
    requires
        s.to_multiset() == t.to_multiset(),
    ensures
        sum_of(s, f) == sum_of(t, f),
    decreases s.len(),
{
    broadcast use vstd::seq_lib::group_to_multiset_ensures;

    if s.len() == 0 {
        assert(s.to_multiset().len() == s.len());
        assert(t.to_multiset().len() == t.len());
    } else {
        let x = s.last();
        let rest = s.drop_last();
        assert(rest.push(x) =~= s);
        assert(s.to_multiset() =~= rest.to_multiset().insert(x));
        assert(t.to_multiset().count(x) > 0);
        assert(t.contains(x));
        let k = choose|k: int| 0 <= k < t.len() && t[k] == x;
        assert(t.remove(k).to_multiset() =~= t.to_multiset().remove(x));
        assert(rest.to_multiset() =~= t.remove(k).to_multiset());
        lemma_sum_permutation(rest, t.remove(k), f);
        lemma_sum_remove(t, k, f);
    }
}

/// The statistics do not depend on the order in which the records are held:
/// two sequences with the same records, counted with multiplicity, give the
/// same statistics.
pub proof fn lemma_stats_independent_of_order(s: Seq<RoundHistory>, t: Seq<RoundHistory>)
    requires
        s.to_multiset() == t.to_multiset(),
    ensures
        stats_of(s) == stats_of(t),
{
    lemma_sum_permutation(s, t, |r: RoundHistory| win_of(r));
    lemma_sum_permutation(s, t, |r: RoundHistory| count_of(r));
    lemma_sum_permutation(s, t, |r: RoundHistory| ore_of(r));
    lemma_sum_permutation(s, t, |r: RoundHistory| deployed_of(r));
    lemma_sum_permutation(s, t, |r: RoundHistory| gained_of(r));
}

/// Restoring a ledger from the records it held gives back those records, and
/// with them the same statistics.
pub proof fn lemma_restore_round_trip(s: Seq<RoundHistory>)
    requires
        records_wf(s),
    ensures
        restored(Some(s)) == s,
        stats_of(restored(Some(s))) == stats_of(s),
{
}

/// Upserting the same round twice leaves exactly one record under its id, the
/// same ids in the same places as after the first call, and the same
/// statistics over the stored records.
pub proof fn lemma_upsert_twice(
    s: Seq<RoundHistory>,
    round_id: u64,
    timestamp: String,
    status: RoundStatus,
    deployed_sol: i64,
    gained_sol: i64,
    gained_ore: i64,
    result: RoundResult,
)
    requires
        records_wf(s),
        s.len() < MAX_ROUNDS,
        deployed_sol >= 0,
    ensures
        ({
            let once = upsert_model(
                s,
                round_id,
                timestamp,
                status,
                deployed_sol,
                gained_sol,
                gained_ore,
                result,
            );
            let twice = upsert_model(
                once,
                round_id,
                timestamp,
                status,
                deployed_sol,
                gained_sol,
                gained_ore,
                result,
            );
            &&& records_wf(twice)
            &&& twice.len() == once.len()
            &&& forall|i: int| 0 <= i < twice.len() ==> twice[i].round_id == once[i].round_id
            &&& exists|i: int| 0 <= i < twice.len() && twice[i].round_id == round_id
            &&& forall|i: int, j: int|
                0 <= i < twice.len() && 0 <= j < twice.len() && twice[i].round_id == round_id
                    && twice[j].round_id == round_id ==> i == j
            &&& stats_of(twice) == stats_of(once)
            &&& forall|i: int|
                0 <= i < twice.len() && twice[i].round_id == round_id ==> {
                    &&& twice[i].timestamp == timestamp
                    &&& twice[i].status == status
                    &&& twice[i].deployed_sol == deployed_sol
                    &&& twice[i].gained_sol == gained_sol
                    &&& twice[i].gained_ore == gained_ore
                    &&& twice[i].result == result
                }
        }),
{
    let once = upsert_model(
        s,
        round_id,
        timestamp,
        status,
        deployed_sol,
        gained_sol,
        gained_ore,
        result,
    );
    let first = RoundHistory {
        round_id,
        timestamp,
        status,
        deployed_sol,
        gained_sol,
        gained_ore,
        result,
        history: stats_with(s, deployed_sol as int, gained_sol as int, gained_ore as int),
    };
    let second = RoundHistory {
        history: stats_with(once, deployed_sol as int, gained_sol as int, gained_ore as int),
        ..first
    };
    assert(once == put_record(s, first));
    lemma_put_record_wf(s, first);
    assert(first.round_id == round_id);
    let k = find_id(once, round_id);
    assert(k == find_id(put_record(s, first), first.round_id));
    assert(0 <= k < once.len()) by {
        lemma_find_id(once, round_id);
    }
    let twice = once.update(k, second);
    assert(twice == put_record(once, second));
    lemma_same_contribution(once, k, second);
    assert(twice[k].round_id == round_id);
    assert forall|i: int| 0 <= i < twice.len() implies twice[i].round_id == once[i].round_id
        && twice[i].deployed_sol >= 0 by {}
}

/// A round upserted with an id above every stored one becomes the most recent
/// round, holding the figures it was given.
pub proof fn lemma_newest_upsert_is_latest(
    s: Seq<RoundHistory>,
    round_id: u64,
    timestamp: String,
    status: RoundStatus,
    deployed_sol: i64,
    gained_sol: i64,
    gained_ore: i64,
    result: RoundResult,
)
    requires
        forall|i: int| 0 <= i < s.len() ==> s[i].round_id < round_id,
    ensures
        ({
            let t = upsert_model(
                s,
                round_id,
                timestamp,
                status,
                deployed_sol,
                gained_sol,
                gained_ore,
                result,
            );
            &&& is_latest(t, t.last())
            &&& t.last().round_id == round_id
            &&& t.last().timestamp == timestamp
            &&& t.last().status == status
            &&& t.last().deployed_sol == deployed_sol
            &&& t.last().gained_sol == gained_sol
            &&& t.last().gained_ore == gained_ore
            &&& t.last().result == result
        }),
{
    lemma_find_id(s, round_id);
    let t = upsert_model(
        s,
        round_id,
        timestamp,
        status,
        deployed_sol,
        gained_sol,
        gained_ore,
        result,
    );
    assert(t.len() == s.len() + 1);
    assert(t.contains(t.last())) by {
        assert(t[t.len() - 1] == t.last());
    }
}

} // verus!
