//! Risk level, human requirements and the priority score.
//!
//! Scores are exact: a priority is an integer count of `1/PRIORITY_SCALE`
//! points, so that the thirds, sevenths, halves and hundredths of the
//! weighted formula need no rounding.

use vstd::prelude::*;
use crate::model::{GitStatus, HumanRequirement, Stage, TaskSummary};

verus! {

/// Units of a priority score per point.
pub const PRIORITY_SCALE: i64 = 2100;

pub const SECONDS_PER_DAY: i64 = 86400;

/// After this many days a project counts as fully stale.
pub const STALE_DAYS: i64 = 7;

/// Weights of the five terms of the priority score, in whole points.
#[derive(Debug, Clone, Copy, PartialEq, Eq, Structural)]
pub struct PriorityWeights {
    pub needs_human: u32,
    pub risk: u32,
    pub staleness: u32,
    pub impact: u32,
    pub confidence: u32,
}

impl PriorityWeights {
    pub open spec fn default_spec() -> PriorityWeights {
        PriorityWeights { needs_human: 40, risk: 25, staleness: 15, impact: 15, confidence: 10 }
    }
}

impl Default for PriorityWeights {
    fn default() -> (r: PriorityWeights)
        ensures
            r == PriorityWeights::default_spec(),
    {
        PriorityWeights { needs_human: 40, risk: 25, staleness: 15, impact: 15, confidence: 10 }
    }
}

/// Risk level from 0 to 3: one for each condition that holds, at most 3.
pub open spec fn risk_of(has_errors: bool, parallel_marked: u32, blocked: u32, clean: bool) -> u8 {
    let n = (if has_errors { 1int } else { 0int }) + (if parallel_marked > 3 { 1int } else { 0int })
        + (if blocked > 0 { 1int } else { 0int }) + (if !clean { 1int } else { 0int });
    if n > 3 { 3 } else { n as u8 }
}

/// Calculate the risk level (0-3) of a project.
pub fn calculate_risk(stage: &Stage, git_status: &GitStatus, tasks: &TaskSummary, has_errors: bool) -> (r: u8)
    ensures
        r == risk_of(has_errors, tasks.parallel_marked, tasks.blocked, git_status.clean),
        r <= 3,
{
    let mut risk: u8 = 0;
    if has_errors {
        risk += 1;
    }
    if tasks.parallel_marked > 3 {
        risk += 1;
    }
    if tasks.blocked > 0 {
        risk += 1;
    }
    if !git_status.clean {
        risk += 1;
    }
    if risk > 3 {
        3
    } else {
        risk
    }
}

/// The requirement that the stage itself brings, if any.
pub open spec fn stage_requirements(stage: Stage, tasks: TaskSummary) -> Seq<HumanRequirement> {
    match stage {
        Stage::Bootstrap | Stage::Specify | Stage::Plan => seq![HumanRequirement::Input],
        Stage::Review => seq![HumanRequirement::Review],
        Stage::Test => if tasks.completed < tasks.total {
            seq![HumanRequirement::Test]
        } else {
            Seq::empty()
        },
        _ => Seq::empty(),
    }
}

/// The stage's requirement, then `Fix` for uncommitted changes, then
/// `Decision` for blocked tasks.
pub open spec fn human_requirements(stage: Stage, clean: bool, tasks: TaskSummary) -> Seq<HumanRequirement> {
    let a = stage_requirements(stage, tasks);
    let b = if !clean { a.push(HumanRequirement::Fix) } else { a };
    if tasks.blocked > 0 { b.push(HumanRequirement::Decision) } else { b }
}

/// Determine which human requirements a project has.
pub fn detect_human_requirements(stage: &Stage, git_status: &GitStatus, tasks: &TaskSummary) -> (r: Vec<HumanRequirement>)
    ensures
        r@ == human_requirements(*stage, git_status.clean, *tasks),
{
    let mut requirements: Vec<HumanRequirement> = Vec::new();
    match stage {
        Stage::Bootstrap | Stage::Specify | Stage::Plan => {
            requirements.push(HumanRequirement::Input);
        },
        Stage::Review => {
            requirements.push(HumanRequirement::Review);
        },
        Stage::Test => {
            if tasks.completed < tasks.total {
                requirements.push(HumanRequirement::Test);
            }
        },
        _ => {},
    }
    assert(requirements@ =~= stage_requirements(*stage, *tasks));
    if !git_status.clean {
        requirements.push(HumanRequirement::Fix);
    }
    if tasks.blocked > 0 {
        requirements.push(HumanRequirement::Decision);
    }
    requirements
}

/// Error markers in build or test output are not looked for yet, so no
/// project reports them.
pub fn has_error_markers(project_path: &str) -> (r: bool)
    ensures
        !r,
{
    false
}

/// Impact level 1, 2 or 3 as a percentage; any other value counts as 50%.
pub open spec fn impact_percent(impact: u8) -> int {
    if impact == 1 {
        33
    } else if impact == 2 {
        66
    } else if impact == 3 {
        100
    } else {
        50
    }
}

/// Whole days from `last_updated` to `now`, between 0 and `STALE_DAYS`.
pub open spec fn stale_days(last_updated: i64, now: i64) -> int {
    let d = (now - last_updated) / (SECONDS_PER_DAY as int);
    if d < 0 {
        0
    } else if d > STALE_DAYS {
        STALE_DAYS as int
    } else {
        d
    }
}

/// The priority score in units of `1/PRIORITY_SCALE` point:
/// `needs_human*[human] + risk*risk_level/3 + staleness*days/7
///  + impact*impact_percent/100 - confidence*confidence_level/2`.
pub open spec fn priority_value(
    w: PriorityWeights,
    needs_human: bool,
    risk_level: u8,
    days: int,
    impact: u8,
    confidence: u8,
) -> int {
    w.needs_human * 2100 * (if needs_human { 1int } else { 0int }) + w.risk * 700 * risk_level
        + w.staleness * 300 * days + w.impact * 21 * impact_percent(impact) - w.confidence * 1050
        * confidence
}

fn scaled(w: u32, factor: u32) -> (r: i64)
    requires
        factor <= 300000,
    ensures
        r == w * factor,
        0 <= r <= 0x1_0000_0000 * 300000,
{
    proof {
        assert(0 <= w * factor <= 0x1_0000_0000 * 300000) by (nonlinear_arith)
            requires
                w <= 0xffff_ffff,
                factor <= 300000,
        ;
    }
    (w as i64) * (factor as i64)
}

fn impact_percent_of(impact: u8) -> (r: u32)
    ensures
        r == impact_percent(impact),
{
    match impact {
        1 => 33,
        2 => 66,
        3 => 100,
        _ => 50,
    }
}

/// Whole days of staleness between `last_updated` and `now`, at most 7.
pub fn staleness_days(last_updated: i64, now: i64) -> (r: u32)
    ensures
        r == stale_days(last_updated, now),
{
    if now <= last_updated {
        return 0;
    }
    let diff: i128 = now as i128 - last_updated as i128;
    if diff >= 7 * 86400 {
        7
    } else {
        let d = (diff as u64) / 86400;
        d as u32
    }
}

/// Computes priority scores with a fixed set of weights.
#[derive(Debug)]
pub struct PriorityCalculator {
    pub weights: PriorityWeights,
}

impl PriorityCalculator {
    pub fn new(weights: PriorityWeights) -> (r: Self)
        ensures
            r.weights == weights,
    {
        Self { weights }
    }

    /// The priority score at time `now` (seconds since the Unix epoch), in
    /// units of `1/PRIORITY_SCALE`.
    pub fn calculate(
        &self,
        requires_human: &[HumanRequirement],
        risk_level: u8,
        last_updated: i64,
        impact: u8,
        confidence: u8,
        now: i64,
    ) -> (r: i64)
        ensures
            r == priority_value(
                self.weights,
                requires_human@.len() > 0,
                risk_level,
                stale_days(last_updated, now),
                impact,
                confidence,
            ),
    {
        let w = self.weights;
        let human = if requires_human.len() > 0 {
            scaled(w.needs_human, 2100)
        } else {
            0
        };
        let risk = scaled(w.risk, 700 * risk_level as u32);
        let staleness = scaled(w.staleness, 300 * staleness_days(last_updated, now));
        let impact_term = scaled(w.impact, 21 * impact_percent_of(impact));
        let confidence_term = scaled(w.confidence, 1050 * confidence as u32);
        proof {
            assert(w.risk * (700 * risk_level as u32) == w.risk * 700 * risk_level) by (nonlinear_arith);
            assert(w.staleness * (300 * stale_days(last_updated, now)) == w.staleness * 300
                * stale_days(last_updated, now)) by (nonlinear_arith);
            assert(w.impact * (21 * impact_percent(impact)) == w.impact * 21 * impact_percent(impact))
                by (nonlinear_arith);
            assert(w.confidence * (1050 * confidence as u32) == w.confidence * 1050 * confidence)
                by (nonlinear_arith);
        }
        human + risk + staleness + impact_term - confidence_term
    }
}

/// The priority score does not fall when the risk level or the staleness
/// grows, and does not rise when the confidence grows, the rest held fixed.
pub proof fn lemma_priority_monotone(
    w: PriorityWeights,
    needs_human: bool,
    risk1: u8,
    risk2: u8,
    days1: int,
    days2: int,
    impact: u8,
    confidence1: u8,
    confidence2: u8,
)
    requires
        risk1 <= risk2,
        days1 <= days2,
        confidence1 >= confidence2,
    ensures
        priority_value(w, needs_human, risk1, days1, impact, confidence1) <= priority_value(
            w,
            needs_human,
            risk2,
            days2,
            impact,
            confidence2,
        ),
{
    assert(w.risk * 700 * risk1 <= w.risk * 700 * risk2) by (nonlinear_arith)
        requires
            risk1 <= risk2,
            w.risk >= 0,
    ;
    assert(w.staleness * 300 * days1 <= w.staleness * 300 * days2) by (nonlinear_arith)
        requires
            days1 <= days2,
            w.staleness >= 0,
    ;
    assert(w.confidence * 1050 * confidence2 <= w.confidence * 1050 * confidence1) by (nonlinear_arith)
        requires
            confidence2 <= confidence1,
            w.confidence >= 0,
    ;
}

/// Staleness never falls as time goes on, nor as the last update moves
/// back.
pub proof fn lemma_staleness_monotone(last1: i64, last2: i64, now1: i64, now2: i64)
    requires
        last2 <= last1,
        now1 <= now2,
    ensures
        stale_days(last1, now1) <= stale_days(last2, now2),
{
    assert((now1 - last1) / (SECONDS_PER_DAY as int) <= (now2 - last2) / (SECONDS_PER_DAY as int))
        by (nonlinear_arith)
        requires
            now1 - last1 <= now2 - last2,
    ;
}

} // verus!
