//! Coverage metrics of a scan, and the report built from them.
use vstd::prelude::*;
use crate::clock::{is_v4_id, new_id, now, Timestamp};
use crate::text::{copy_str, decimal, decimal_string, views};

verus! {

/// How many distinct requirements one file annotates, and which.
#[derive(Debug, Clone)]
pub struct FileCoverage {
    pub file_path: String,
    pub requirement_count: usize,
    pub requirements: Vec<String>,
}

/// Coverage of requirements by annotations.
///
/// The coverage percentage is `covered_requirements` out of
/// `total_requirements` (0 when there are none); it is kept as these two
/// counts.
#[derive(Debug, Clone)]
pub struct CoverageMetrics {
    pub id: u128,
    pub scan_id: u128,
    pub total_requirements: usize,
    pub covered_requirements: usize,
    pub uncovered_requirements: Vec<String>,
    /// One entry per annotated file, distinct by `file_path`.
    pub file_coverage: Vec<FileCoverage>,
    pub calculated_at: Timestamp,
}

/// A requirement map: each requirement id with the files that annotate it.
pub type RequirementFiles = Vec<(String, Vec<String>)>;

/// No requirement id occurs twice in a requirement map, as in a hash map.
pub open spec fn distinct_keys(m: Seq<(String, Vec<String>)>) -> bool {
    forall|i: int, j: int| 0 <= i < j < m.len() ==> m[i].0@ != m[j].0@
}

/// The number of entries of a requirement map that have at least one file.
pub open spec fn covered_count(m: Seq<(String, Vec<String>)>) -> nat
    decreases m.len(),
{
    if m.len() == 0 {
        0
    } else {
        covered_count(m.drop_last()) + if m.last().1@.len() > 0 {
            1nat
        } else {
            0nat
        }
    }
}

/// The keys of a requirement map that have no file, in order.
pub open spec fn uncovered_keys(m: Seq<(String, Vec<String>)>) -> Seq<Seq<char>>
    decreases m.len(),
{
    if m.len() == 0 {
        seq![]
    } else if m.last().1@.len() == 0 {
        uncovered_keys(m.drop_last()).push(m.last().0@)
    } else {
        uncovered_keys(m.drop_last())
    }
}

/// Law: each requirement of a requirement map is either covered or listed
/// as uncovered, never both, so the covered ones never outnumber all of
/// them.
pub proof fn law_covered_and_uncovered_split(m: Seq<(String, Vec<String>)>)
    ensures
        covered_count(m) + uncovered_keys(m).len() == m.len(),
        covered_count(m) <= m.len(),
    decreases m.len(),
{
    if m.len() > 0 {
        law_covered_and_uncovered_split(m.drop_last());
    }
}

/// The percentage of covered requirements is below `percent` (an empty set
/// of requirements counts as 0%).
pub open spec fn coverage_below(m: CoverageMetrics, percent: nat) -> bool {
    m.total_requirements == 0 || m.covered_requirements * 100 < percent * m.total_requirements
}

impl CoverageMetrics {
    /// Empty metrics for the scan `scan_id`, with a fresh id, stamped with
    /// the current time.
    pub fn new(scan_id: u128) -> (r: Self)
        ensures
            r.scan_id == scan_id,
            is_v4_id(r.id),
            r.total_requirements == 0,
            r.covered_requirements == 0,
            r.uncovered_requirements@.len() == 0,
            r.file_coverage@.len() == 0,
            0 <= r.calculated_at.seconds,
            r.calculated_at.nanos < 1_000_000_000,
    {
        CoverageMetrics {
            id: new_id(),
            scan_id,
            total_requirements: 0,
            covered_requirements: 0,
            uncovered_requirements: Vec::new(),
            file_coverage: Vec::new(),
            calculated_at: now(),
        }
    }

    /// Sets the counts and the uncovered requirements from a requirement
    /// map, whose ids are distinct; the other fields stay as they were.
    pub fn calculate_coverage(&mut self, requirements: &RequirementFiles)
        requires
            distinct_keys(requirements@),
        ensures
            final(self).total_requirements == requirements@.len(),
            final(self).covered_requirements == covered_count(requirements@),
            views(final(self).uncovered_requirements@) == uncovered_keys(requirements@),
            final(self).id == old(self).id,
            final(self).scan_id == old(self).scan_id,
            final(self).file_coverage == old(self).file_coverage,
            final(self).calculated_at == old(self).calculated_at,
    {
        let n = requirements.len();
        let mut covered: usize = 0;
        let mut uncovered: Vec<String> = Vec::new();
        let mut i: usize = 0;
        while i < n
            invariant
                n == requirements@.len(),
                i <= n,
                covered <= i,
                covered == covered_count(requirements@.take(i as int)),
                views(uncovered@) == uncovered_keys(requirements@.take(i as int)),
            decreases n - i,
        {
            assert(requirements@.take(i + 1).drop_last() == requirements@.take(i as int));
            assert(requirements@.take(i + 1).last() == requirements@[i as int]);
            if requirements[i].1.len() > 0 {
                covered = covered + 1;
            } else {
                let ghost before = uncovered@;
                uncovered.push(requirements[i].0.clone());
                assert(views(uncovered@) == views(before).push(requirements@[i as int].0@));
            }
            i = i + 1;
        }
        assert(requirements@.take(n as int) == requirements@);
        self.total_requirements = n;
        self.covered_requirements = covered;
        self.uncovered_requirements = uncovered;
    }
}

/// The recommendation for coverage below half.
pub open spec fn critical_text() -> Seq<char> {
    "Critically low requirement coverage. Immediate increase in annotations recommended."@
}

/// The recommendation for coverage below three quarters.
pub open spec fn below_target_text() -> Seq<char> {
    "Requirement coverage below target level. Consider adding annotations for key components."@
}

/// The recommendation about `n` uncovered requirements.
pub open spec fn uncovered_text(n: nat) -> Seq<char> {
    "Found "@ + decimal(n) + " uncovered requirements. Attention needed for these specifications."@
}

/// Where coverage stands against the targets: below half, below three
/// quarters, or on target.
#[derive(Debug, Clone, Copy, PartialEq, Eq, Structural)]
pub enum CoverageLevel {
    Critical,
    BelowTarget,
    OnTarget,
}

/// The coverage level of a set of metrics, judged from its counts.
pub open spec fn level_of(m: CoverageMetrics) -> CoverageLevel {
    if coverage_below(m, 50) {
        CoverageLevel::Critical
    } else if coverage_below(m, 75) {
        CoverageLevel::BelowTarget
    } else {
        CoverageLevel::OnTarget
    }
}

/// The recommendations at a coverage level with `uncovered` uncovered
/// requirements: one about the level (none on target), then one about the
/// uncovered requirements when there are any.
pub open spec fn level_recommendations(level: CoverageLevel, uncovered: nat) -> Seq<Seq<char>> {
    let first = match level {
        CoverageLevel::Critical => seq![critical_text()],
        CoverageLevel::BelowTarget => seq![below_target_text()],
        CoverageLevel::OnTarget => seq![],
    };
    if uncovered > 0 {
        first.push(uncovered_text(uncovered))
    } else {
        first
    }
}

/// Law: the recommendations are one about the level when coverage is
/// below target, then, whenever some requirement is uncovered and whatever
/// the level, the message that counts them; nothing else.
pub proof fn law_recommendation_shape(level: CoverageLevel, uncovered: nat)
    ensures
        level_recommendations(level, uncovered).len() == (if level == CoverageLevel::OnTarget {
            0nat
        } else {
            1nat
        }) + (if uncovered > 0 {
            1nat
        } else {
            0nat
        }),
        level == CoverageLevel::Critical ==> level_recommendations(level, uncovered)[0]
            == critical_text(),
        level == CoverageLevel::BelowTarget ==> level_recommendations(level, uncovered)[0]
            == below_target_text(),
        uncovered > 0 ==> level_recommendations(level, uncovered).last() == uncovered_text(
            uncovered,
        ),
{
}

/// The recommendations for a set of metrics: one about the coverage level
/// (below 50%, or else below 75%), then one about uncovered requirements
/// when there are any.
pub open spec fn recommendations_for(m: CoverageMetrics) -> Seq<Seq<char>> {
    level_recommendations(level_of(m), m.uncovered_requirements@.len())
}

/// The recommendations at a coverage level, given the number of uncovered
/// requirements.
pub fn recommendations_at_level(level: CoverageLevel, uncovered: usize) -> (r: Vec<String>)
    ensures
        views(r@) == level_recommendations(level, uncovered as nat),
{
    let mut recommendations: Vec<String> = Vec::new();
    match level {
        CoverageLevel::Critical => {
            recommendations.push(
                copy_str(
                    "Critically low requirement coverage. Immediate increase in annotations recommended.",
                ),
            );
        },
        CoverageLevel::BelowTarget => {
            recommendations.push(
                copy_str(
                    "Requirement coverage below target level. Consider adding annotations for key components.",
                ),
            );
        },
        CoverageLevel::OnTarget => {},
    }
    let ghost first = views(recommendations@);
    if uncovered > 0 {
        let mut msg = copy_str("Found ");
        let count = decimal_string(uncovered as u64);
        msg.append(count.as_str());
        msg.append(" uncovered requirements. Attention needed for these specifications.");
        recommendations.push(msg);
        assert(views(recommendations@) == first.push(msg@));
    }
    recommendations
}

fn is_coverage_below(m: &CoverageMetrics, percent: u64) -> (r: bool)
    ensures
        r == coverage_below(*m, percent as nat),
{
    let covered = m.covered_requirements as u128;
    let total = m.total_requirements as u128;
    assert(covered * 100 <= 0xffff_ffff_ffff_ffff * 100);
    assert(percent as u128 * total <= 0xffff_ffff_ffff_ffff * 0xffff_ffff_ffff_ffff) by (nonlinear_arith)
        requires
            percent <= 0xffff_ffff_ffff_ffffu64,
            total <= 0xffff_ffff_ffff_ffffu128,
    ;
    total == 0 || covered * 100 < (percent as u128) * total
}

/// The report of a scan: its metrics and what to do about them.
#[derive(Debug, Clone)]
pub struct CoverageReport {
    pub scan_id: u128,
    pub metrics: CoverageMetrics,
    pub recommendations: Vec<String>,
}

impl CoverageReport {
    /// The recommendations for `metrics`, its level judged from the counts.
    pub fn generate_recommendations(metrics: &CoverageMetrics) -> (r: Vec<String>)
        ensures
            views(r@) == recommendations_for(*metrics),
    {
        let level = if is_coverage_below(metrics, 50) {
            CoverageLevel::Critical
        } else if is_coverage_below(metrics, 75) {
            CoverageLevel::BelowTarget
        } else {
            CoverageLevel::OnTarget
        };
        recommendations_at_level(level, metrics.uncovered_requirements.len())
    }
}

} // verus!
