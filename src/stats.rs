use vstd::prelude::*;

verus! {

/// Whether a stake was placed in a round.
#[derive(Clone, Copy, Debug, PartialEq, Eq, Structural)]
pub enum RoundStatus {
    Deployed,
    Skipped,
}

/// Outcome of a round as the caller classified it.
#[derive(Clone, Copy, Debug, PartialEq, Eq, Structural)]
pub enum RoundResult {
    Success,
    Failure,
    Skipped,
}

/// Aggregate figures over the deployed rounds taken into account.
///
/// Amounts are integers in the smallest unit of their denomination, so the
/// totals are exact. The two ratios are handed out as fractions.
#[derive(Clone, Copy, Debug, PartialEq, Eq, Structural)]
pub struct HistoryStats {
    pub win_count: u64,
    pub total_count: u64,
    pub total_ore: i128,
    pub total_deployed_sol: i128,
    pub total_gained_sol: i128,
}

/// One recorded round, with the statistics that held when it was written.
#[derive(Debug)]
pub struct RoundHistory {
    pub round_id: u64,
    pub timestamp: String,
    pub status: RoundStatus,
    pub deployed_sol: i64,
    pub gained_sol: i64,
    pub gained_ore: i64,
    pub result: RoundResult,
    pub history: HistoryStats,
}

impl Clone for RoundHistory {
    fn clone(&self) -> (r: Self)
        ensures
            r == *self,
    {
        RoundHistory {
            round_id: self.round_id,
            timestamp: self.timestamp.clone(),
            status: self.status,
            deployed_sol: self.deployed_sol,
            gained_sol: self.gained_sol,
            gained_ore: self.gained_ore,
            result: self.result,
            history: self.history,
        }
    }
}

/// Largest number of rounds a ledger holds: no `Vec` of records can be longer.
pub const MAX_ROUNDS: u64 = 0x7fff_ffff_ffff_ffff;

pub open spec fn is_deployed(r: RoundHistory) -> bool {
    r.status == RoundStatus::Deployed
}

/// What a stored record adds to the win count.
pub open spec fn win_of(r: RoundHistory) -> int {
    if is_deployed(r) && r.result == RoundResult::Success { 1 } else { 0 }
}

/// What a stored record adds to the number of rounds counted.
pub open spec fn count_of(r: RoundHistory) -> int {
    if is_deployed(r) { 1 } else { 0 }
}

pub open spec fn ore_of(r: RoundHistory) -> int {
    if is_deployed(r) { r.gained_ore as int } else { 0 }
}

pub open spec fn deployed_of(r: RoundHistory) -> int {
    if is_deployed(r) { r.deployed_sol as int } else { 0 }
}

pub open spec fn gained_of(r: RoundHistory) -> int {
    if is_deployed(r) { r.gained_sol as int } else { 0 }
}

/// Sum of `f` over the records of `s`.
pub open spec fn sum_of(s: Seq<RoundHistory>, f: spec_fn(RoundHistory) -> int) -> int
    decreases s.len(),
{
    if s.len() == 0 {
        0
    } else {
        sum_of(s.drop_last(), f) + f(s.last())
    }
}

/// Number of deployed rounds of `s` classified as a success.
pub open spec fn total_wins(s: Seq<RoundHistory>) -> int {
    sum_of(s, |r: RoundHistory| win_of(r))
}

/// Number of deployed rounds of `s`.
pub open spec fn total_counted(s: Seq<RoundHistory>) -> int {
    sum_of(s, |r: RoundHistory| count_of(r))
}

pub open spec fn total_ore_of(s: Seq<RoundHistory>) -> int {
    sum_of(s, |r: RoundHistory| ore_of(r))
}

pub open spec fn total_deployed_of(s: Seq<RoundHistory>) -> int {
    sum_of(s, |r: RoundHistory| deployed_of(r))
}

pub open spec fn total_gained_of(s: Seq<RoundHistory>) -> int {
    sum_of(s, |r: RoundHistory| gained_of(r))
}

/// The statistics over the records of `s`, with a round not yet stored folded in
/// when its deployed amount `d` is positive (a win when its gain `g` is).
pub open spec fn stats_with(s: Seq<RoundHistory>, d: int, g: int, o: int) -> HistoryStats {
    let folded = d > 0;
    HistoryStats {
        win_count: (total_wins(s) + if folded && g > 0 { 1int } else { 0int }) as u64,
        total_count: (total_counted(s) + if folded { 1int } else { 0int }) as u64,
        total_ore: (total_ore_of(s) + if folded { o } else { 0int }) as i128,
        total_deployed_sol: (total_deployed_of(s) + if folded { d } else { 0int }) as i128,
        total_gained_sol: (total_gained_of(s) + if folded { g } else { 0int }) as i128,
    }
}

/// The statistics over the stored records of `s` alone.
pub open spec fn stats_of(s: Seq<RoundHistory>) -> HistoryStats {
    stats_with(s, 0, 0, 0)
}

/// Round ids are unique and every deployed amount is non-negative.
pub open spec fn records_wf(s: Seq<RoundHistory>) -> bool {
    &&& s.len() <= MAX_ROUNDS
    &&& forall|i: int, j: int|
        0 <= i < s.len() && 0 <= j < s.len() && i != j ==> s[i].round_id != s[j].round_id
    &&& forall|i: int| 0 <= i < s.len() ==> s[i].deployed_sol >= 0
}

/// Index of the record with id `id`, or -1 when there is none.
pub open spec fn find_id(s: Seq<RoundHistory>, id: u64) -> int
    decreases s.len(),
{
    if s.len() == 0 {
        -1
    } else if s.last().round_id == id {
        s.len() - 1
    } else {
        find_id(s.drop_last(), id)
    }
}

/// `s` with `r` put in place of the record with the same id, or appended.
pub open spec fn put_record(s: Seq<RoundHistory>, r: RoundHistory) -> Seq<RoundHistory> {
    let i = find_id(s, r.round_id);
    if i >= 0 {
        s.update(i, r)
    } else {
        s.push(r)
    }
}

/// The records after an upsert of the given round into `s`.
pub open spec fn upsert_model(
    s: Seq<RoundHistory>,
    round_id: u64,
    timestamp: String,
    status: RoundStatus,
    deployed_sol: i64,
    gained_sol: i64,
    gained_ore: i64,
    result: RoundResult,
) -> Seq<RoundHistory> {
    put_record(
        s,
        RoundHistory {
            round_id,
            timestamp,
            status,
            deployed_sol,
            gained_sol,
            gained_ore,
            result,
            history: stats_with(s, deployed_sol as int, gained_sol as int, gained_ore as int),
        },
    )
}

/// Whether the record with the greatest id among those of `s` is `r`.
pub open spec fn is_latest(s: Seq<RoundHistory>, r: RoundHistory) -> bool {
    &&& s.contains(r)
    &&& forall|i: int| 0 <= i < s.len() ==> s[i].round_id <= r.round_id
}

impl HistoryStats {
    /// The wins never outnumber the rounds counted, and the net cost fits.
    pub open spec fn wf(&self) -> bool {
        &&& self.win_count <= self.total_count
        &&& i128::MIN <= self.total_deployed_sol - self.total_gained_sol <= i128::MAX
    }

    /// Win rate in percent, as numerator and denominator.
    pub open spec fn win_rate_fraction(&self) -> (int, int) {
        if self.total_count > 0 {
            (100 * self.win_count, self.total_count as int)
        } else {
            (0, 1)
        }
    }

    /// Secondary reward per unit of net cost, as numerator and denominator.
    pub open spec fn profit_loss_fraction(&self) -> (int, int) {
        let cost = self.total_deployed_sol - self.total_gained_sol;
        if cost > 0 {
            (self.total_ore as int, cost)
        } else {
            (0, 1)
        }
    }

    /// Total staked minus total primary reward recovered.
    pub fn net_cost(&self) -> (r: i128)
        requires
            self.wf(),
        ensures
            r == self.total_deployed_sol - self.total_gained_sol,
    {
        self.total_deployed_sol - self.total_gained_sol
    }

    /// Percentage of counted rounds that were wins, as `(numerator, denominator)`;
    /// `(0, 1)` when no round was counted.
    pub fn win_rate(&self) -> (r: (u128, u128))
        requires
            self.wf(),
        ensures
            r.0 == self.win_rate_fraction().0,
            r.1 == self.win_rate_fraction().1,
            r.1 > 0,
            r.0 <= 100 * r.1,
    {
        if self.total_count > 0 {
            (100 * (self.win_count as u128), self.total_count as u128)
        } else {
            (0, 1)
        }
    }

    /// Total secondary reward over the net cost, as `(numerator, denominator)`;
    /// `(0, 1)` when the net cost is not positive. The denominator is always
    /// positive, so the ratio is always defined.
    pub fn profit_loss_ratio(&self) -> (r: (i128, i128))
        requires
            self.wf(),
        ensures
            r.0 == self.profit_loss_fraction().0,
            r.1 == self.profit_loss_fraction().1,
            r.1 > 0,
    {
        let cost = self.net_cost();
        if cost > 0 {
            (self.total_ore, cost)
        } else {
            (0, 1)
        }
    }
}

pub proof fn lemma_sum_push(s: Seq<RoundHistory>, x: RoundHistory, f: spec_fn(RoundHistory) -> int)
    ensures
        sum_of(s.push(x), f) == sum_of(s, f) + f(x),
{
    assert(s.push(x).drop_last() =~= s);
}

pub proof fn lemma_sum_update(
    s: Seq<RoundHistory>,
    i: int,
    x: RoundHistory,
    f: spec_fn(RoundHistory) -> int,
)
    requires
        0 <= i < s.len(),
    ensures
        sum_of(s.update(i, x), f) == sum_of(s, f) - f(s[i]) + f(x),
    decreases s.len(),
{
    let t = s.update(i, x);
    if i == s.len() - 1 {
        assert(t.drop_last() =~= s.drop_last());
    } else {
        assert(t.drop_last() =~= s.drop_last().update(i, x));
        lemma_sum_update(s.drop_last(), i, x, f);
    }
}

/// Wins, counted rounds and records come in that order of size.
pub proof fn lemma_count_bounds(s: Seq<RoundHistory>)
    ensures
        0 <= total_wins(s) <= total_counted(s) <= s.len(),
    decreases s.len(),
{
    if s.len() > 0 {
        lemma_count_bounds(s.drop_last());
    }
}

pub proof fn lemma_find_id(s: Seq<RoundHistory>, id: u64)
    ensures
        -1 <= find_id(s, id) < s.len(),
        find_id(s, id) >= 0 ==> s[find_id(s, id)].round_id == id,
        find_id(s, id) == -1 ==> forall|i: int| 0 <= i < s.len() ==> s[i].round_id != id,
    decreases s.len(),
{
    if s.len() > 0 {
        lemma_find_id(s.drop_last(), id);
        assert forall|i: int| 0 <= i < s.len() - 1 implies s[i] == s.drop_last()[i] by {}
    }
}

} // verus!
