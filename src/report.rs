use vstd::prelude::*;

use crate::ledger::RewardDatabase;
use crate::stats::{stats_of, HistoryStats};

verus! {

/// ANSI colour codes used by the round report.
pub struct Colors;

impl Colors {
    pub const GREEN: &'static str = "\x1b[32m";
    pub const RED: &'static str = "\x1b[31m";
    pub const YELLOW: &'static str = "\x1b[33m";
    pub const CYAN: &'static str = "\x1b[36m";
    pub const RESET: &'static str = "\x1b[0m";
}

/// What the report on a finished round shows: its classification, its own
/// figures and the statistics over the stored records.
#[derive(Clone, Copy, Debug, PartialEq, Eq, Structural)]
pub struct RoundReport {
    pub reported_round: Option<u64>,
    pub deployed: bool,
    pub success: bool,
    pub deployed_sol: i64,
    pub gained_sol: i128,
    pub gained_ore: i128,
    pub history: HistoryStats,
}

impl RoundReport {
    /// Green for a deployed round, yellow for a skipped one.
    pub fn status_color(&self) -> (r: &'static str)
        ensures
            r == (if self.deployed { Colors::GREEN } else { Colors::YELLOW }),
    {
        if self.deployed {
            Colors::GREEN
        } else {
            Colors::YELLOW
        }
    }

    /// Green for a success, red for a failure.
    pub fn result_color(&self) -> (r: &'static str)
        ensures
            r == (if self.success { Colors::GREEN } else { Colors::RED }),
    {
        if self.success {
            Colors::GREEN
        } else {
            Colors::RED
        }
    }

    /// Green when the profit/loss ratio is not negative, red when it is.
    pub fn profit_color(&self) -> (r: &'static str)
        requires
            self.history.wf(),
        ensures
            r == (if self.history.profit_loss_fraction().0 >= 0 {
                Colors::GREEN
            } else {
                Colors::RED
            }),
    {
        let ratio = self.history.profit_loss_ratio();
        if ratio.0 >= 0 {
            Colors::GREEN
        } else {
            Colors::RED
        }
    }
}

/// Classifies the round that just ended (given its stake and the reward
/// readings before and after it) and gathers what its report shows. The report
/// is headed with the previous round's id, `round_id - 1`, which round 0 lacks.
pub fn plan_round_report(
    database: &RewardDatabase,
    round_id: u64,
    deployed_sol: i64,
    previous_rewards_sol: i64,
    current_rewards_sol: i64,
    previous_rewards_ore: i64,
    current_rewards_ore: i64,
) -> (r: RoundReport)
    requires
        database.wf(),
    ensures
        round_id >= 1 ==> r.reported_round == Some((round_id - 1) as u64),
        round_id == 0 ==> r.reported_round is None,
        r.gained_sol == current_rewards_sol - previous_rewards_sol,
        r.gained_ore == current_rewards_ore - previous_rewards_ore,
        r.deployed <==> deployed_sol > 0,
        r.success <==> current_rewards_sol > previous_rewards_sol,
        r.deployed_sol == deployed_sol,
        r.history == stats_of(database@),
        r.history.wf(),
{
    let gained_sol = current_rewards_sol as i128 - previous_rewards_sol as i128;
    let gained_ore = current_rewards_ore as i128 - previous_rewards_ore as i128;
    RoundReport {
        reported_round: round_id.checked_sub(1),
        deployed: deployed_sol > 0,
        success: gained_sol > 0,
        deployed_sol,
        gained_sol,
        gained_ore,
        history: database.get_history_stats(),
    }
}

} // verus!
