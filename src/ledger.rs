use vstd::prelude::*;

use crate::stats::{
    is_latest, lemma_find_id, records_wf, stats_of, stats_with,
    total_counted, total_deployed_of, total_gained_of, total_ore_of, total_wins, upsert_model,
    HistoryStats, RoundHistory, RoundResult, RoundStatus, MAX_ROUNDS,
};

verus! {

/// The ledger of recorded rounds, one record per round id.
pub struct RewardDatabase {
    rounds: Vec<RoundHistory>,
}

impl View for RewardDatabase {
    type V = Seq<RoundHistory>;

    closed spec fn view(&self) -> Seq<RoundHistory> {
        self.rounds@
    }
}

/// Sums over the stored records, with the bounds that their amounts give.
fn tally(rounds: &Vec<RoundHistory>) -> (r: HistoryStats)
    requires
        records_wf(rounds@),
    ensures
        r == stats_of(rounds@),
        r.win_count as int == total_wins(rounds@),
        r.total_count as int == total_counted(rounds@),
        r.total_ore as int == total_ore_of(rounds@),
        r.total_deployed_sol as int == total_deployed_of(rounds@),
        r.total_gained_sol as int == total_gained_of(rounds@),
        r.win_count <= r.total_count <= rounds@.len(),
        -(rounds@.len() * 0x8000_0000_0000_0000) <= r.total_ore <= rounds@.len()
            * 0x7fff_ffff_ffff_ffff,
        0 <= r.total_deployed_sol <= rounds@.len() * 0x7fff_ffff_ffff_ffff,
        -(rounds@.len() * 0x8000_0000_0000_0000) <= r.total_gained_sol <= rounds@.len()
            * 0x7fff_ffff_ffff_ffff,
{
    let mut win_count: u64 = 0;
    let mut total_count: u64 = 0;
    let mut total_ore: i128 = 0;
    let mut total_deployed_sol: i128 = 0;
    let mut total_gained_sol: i128 = 0;
    let mut i: usize = 0;
    while i < rounds.len()
        invariant
            i <= rounds@.len(),
            records_wf(rounds@),
            win_count as int == total_wins(rounds@.subrange(0, i as int)),
            total_count as int == total_counted(rounds@.subrange(0, i as int)),
            total_ore as int == total_ore_of(rounds@.subrange(0, i as int)),
            total_deployed_sol as int == total_deployed_of(rounds@.subrange(0, i as int)),
            total_gained_sol as int == total_gained_of(rounds@.subrange(0, i as int)),
            win_count <= total_count <= i,
            -(i * 0x8000_0000_0000_0000) <= total_ore <= i * 0x7fff_ffff_ffff_ffff,
            0 <= total_deployed_sol <= i * 0x7fff_ffff_ffff_ffff,
            -(i * 0x8000_0000_0000_0000) <= total_gained_sol <= i * 0x7fff_ffff_ffff_ffff,
        decreases rounds@.len() - i,
    {
        let rec = &rounds[i];
        proof {
            let t = rounds@.subrange(0, i as int + 1);
            assert(t.drop_last() =~= rounds@.subrange(0, i as int));
            assert(t.last() == rounds@[i as int]);
        }
        if rec.status == RoundStatus::Deployed {
            total_ore = total_ore + rec.gained_ore as i128;
            total_deployed_sol = total_deployed_sol + rec.deployed_sol as i128;
            total_gained_sol = total_gained_sol + rec.gained_sol as i128;
            if rec.result == RoundResult::Success {
                win_count = win_count + 1;
            }
            total_count = total_count + 1;
        }
        i = i + 1;
    }
    assert(rounds@.subrange(0, rounds@.len() as int) =~= rounds@);
    HistoryStats { win_count, total_count, total_ore, total_deployed_sol, total_gained_sol }
}

/// Whether `records` could be a ledger's contents.
fn records_valid(records: &Vec<RoundHistory>) -> (r: bool)
    ensures
        r == records_wf(records@),
{
    if records.len() as u64 > MAX_ROUNDS {
        return false;
    }
    let mut i: usize = 0;
    while i < records.len()
        invariant
            i <= records@.len() <= MAX_ROUNDS,
            forall|a: int| 0 <= a < i ==> records@[a].deployed_sol >= 0,
            forall|a: int, b: int|
                0 <= a < i && 0 <= b < records@.len() && a != b ==> records@[a].round_id
                    != records@[b].round_id,
        decreases records@.len() - i,
    {
        if records[i].deployed_sol < 0 {
            return false;
        }
        let mut j: usize = 0;
        while j < records.len()
            invariant
                i < records@.len(),
                j <= records@.len(),
                forall|b: int|
                    0 <= b < j && b != i ==> records@[i as int].round_id != records@[b].round_id,
            decreases records@.len() - j,
        {
            if j != i && records[i].round_id == records[j].round_id {
                return false;
            }
            j = j + 1;
        }
        i = i + 1;
    }
    proof {
        assert forall|a: int, b: int|
            0 <= a < records@.len() && 0 <= b < records@.len() && a != b implies records@[a].round_id
            != records@[b].round_id by {}
    }
    true
}

/// The records a ledger restored from `parsed` holds: the parsed records when
/// they form a valid ledger, none otherwise.
pub open spec fn restored(parsed: Option<Seq<RoundHistory>>) -> Seq<RoundHistory> {
    match parsed {
        Some(s) => if records_wf(s) {
            s
        } else {
            Seq::empty()
        },
        None => Seq::empty(),
    }
}

/// Where the record with id `id` stands in `rounds`, if anywhere.
fn position_of(rounds: &Vec<RoundHistory>, id: u64) -> (r: Option<usize>)
    ensures
        match r {
            Some(i) => i < rounds@.len() && rounds@[i as int].round_id == id,
            None => forall|j: int| 0 <= j < rounds@.len() ==> rounds@[j].round_id != id,
        },
{
    let mut i: usize = 0;
    while i < rounds.len()
        invariant
            i <= rounds@.len(),
            forall|j: int| 0 <= j < i ==> rounds@[j].round_id != id,
        decreases rounds@.len() - i,
    {
        if rounds[i].round_id == id {
            return Some(i);
        }
        i = i + 1;
    }
    None
}

impl RewardDatabase {
    /// Round ids are unique, deployed amounts non-negative, and the count bounded.
    pub open spec fn wf(&self) -> bool {
        records_wf(self@)
    }

    /// An empty ledger.
    pub fn new() -> (r: Self)
        ensures
            r.wf(),
            r@ == Seq::<RoundHistory>::empty(),
    {
        RewardDatabase { rounds: Vec::new() }
    }

    /// A ledger holding `records`, when their ids are unique and their deployed
    /// amounts non-negative.
    pub fn from_records(records: Vec<RoundHistory>) -> (r: Option<Self>)
        ensures
            r is Some <==> records_wf(records@),
            r matches Some(db) ==> db@ == records@,
    {
        if records_valid(&records) {
            Some(RewardDatabase { rounds: records })
        } else {
            None
        }
    }

    /// The ledger to start from, given what was read back from storage: the
    /// records read when they form a valid ledger, else an empty ledger.
    pub fn restore(parsed: Option<Vec<RoundHistory>>) -> (r: Self)
        ensures
            r.wf(),
            r@ == restored(
                match parsed {
                    Some(v) => Some(v@),
                    None => None,
                },
            ),
    {
        match parsed {
            Some(records) => match Self::from_records(records) {
                Some(db) => db,
                None => Self::new(),
            },
            None => Self::new(),
        }
    }

    /// The stored records.
    pub fn rounds(&self) -> (r: &Vec<RoundHistory>)
        ensures
            r@ == self@,
    {
        &self.rounds
    }

    /// Number of stored records.
    pub fn round_count(&self) -> (r: usize)
        ensures
            r == self@.len(),
    {
        self.rounds.len()
    }

    /// Statistics over the stored records, with the given round folded in when
    /// its deployed amount is positive (and counted as a win when its gain is).
    fn calculate_history(&self, deployed_sol: i64, gained_sol: i64, gained_ore: i64) -> (r:
        HistoryStats)
        requires
            self.wf(),
            self@.len() < MAX_ROUNDS,
        ensures
            r == stats_with(self@, deployed_sol as int, gained_sol as int, gained_ore as int),
            r.wf(),
    {
        let stored = tally(&self.rounds);
        if deployed_sol > 0 {
            let win_count = if gained_sol > 0 {
                stored.win_count + 1
            } else {
                stored.win_count
            };
            HistoryStats {
                win_count,
                total_count: stored.total_count + 1,
                total_ore: stored.total_ore + gained_ore as i128,
                total_deployed_sol: stored.total_deployed_sol + deployed_sol as i128,
                total_gained_sol: stored.total_gained_sol + gained_sol as i128,
            }
        } else {
            stored
        }
    }

    /// Statistics over the stored records alone.
    pub fn get_history_stats(&self) -> (r: HistoryStats)
        requires
            self.wf(),
        ensures
            r == stats_of(self@),
            r.wf(),
            r.win_count as int == total_wins(self@),
            r.total_count as int == total_counted(self@),
            r.total_ore as int == total_ore_of(self@),
            r.total_deployed_sol as int == total_deployed_of(self@),
            r.total_gained_sol as int == total_gained_of(self@),
    {
        tally(&self.rounds)
    }

    /// Records a round under its id, replacing any record with the same id.
    /// The record carries the statistics over the stored records with this round
    /// folded in.
    pub fn add_or_update_round(
        &mut self,
        round_id: u64,
        timestamp: String,
        status: RoundStatus,
        deployed_sol: i64,
        gained_sol: i64,
        gained_ore: i64,
        result: RoundResult,
    )
        requires
            old(self).wf(),
            old(self)@.len() < MAX_ROUNDS,
            deployed_sol >= 0,
        ensures
            final(self).wf(),
            final(self)@ == upsert_model(
                old(self)@,
                round_id,
                timestamp,
                status,
                deployed_sol,
                gained_sol,
                gained_ore,
                result,
            ),
    {
        let history = self.calculate_history(deployed_sol, gained_sol, gained_ore);
        let rec = RoundHistory {
            round_id,
            timestamp,
            status,
            deployed_sol,
            gained_sol,
            gained_ore,
            result,
            history,
        };
        proof {
            lemma_find_id(self@, round_id);
        }
        match position_of(&self.rounds, round_id) {
            Some(i) => {
                self.rounds.set(i, rec);
            },
            None => {
                self.rounds.push(rec);
            },
        }
    }

    /// The record with the greatest round id, if any.
    pub fn get_last_round(&self) -> (r: Option<RoundHistory>)
        ensures
            r is None <==> self@.len() == 0,
            r matches Some(x) ==> is_latest(self@, x),
    {
        if self.rounds.len() == 0 {
            return None;
        }
        let mut best: usize = 0;
        let mut i: usize = 1;
        while i < self.rounds.len()
            invariant
                1 <= i <= self@.len(),
                best < i,
                forall|j: int| 0 <= j < i ==> self@[j].round_id <= self@[best as int].round_id,
            decreases self@.len() - i,
        {
            if self.rounds[i].round_id > self.rounds[best].round_id {
                best = i;
            }
            i = i + 1;
        }
        let x = self.rounds[best].clone();
        assert(self@[best as int] == x);
        Some(x)
    }
}

} // verus!
