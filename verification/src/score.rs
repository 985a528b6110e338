//! Gates, severities and the score model.
use vstd::prelude::*;

use crate::{views, Finding, FindingView};

verus! {

/// One of the four gates a finding is charged to.
#[derive(Clone, Copy, Debug, PartialEq, Eq, Structural)]
pub enum Gate {
    Think,
    Simple,
    Surgical,
    Goal,
}

impl Gate {
    pub open spec fn name(self) -> Seq<char> {
        match self {
            Gate::Think => "think"@,
            Gate::Simple => "simple"@,
            Gate::Surgical => "surgical"@,
            Gate::Goal => "goal"@,
        }
    }

    pub fn as_str(self) -> (s: &'static str)
        ensures
            s@ == self.name(),
    {
        match self {
            Gate::Think => "think",
            Gate::Simple => "simple",
            Gate::Surgical => "surgical",
            Gate::Goal => "goal",
        }
    }
}

/// How bad a finding is.
#[derive(Clone, Copy, Debug, PartialEq, Eq, Structural)]
pub enum Severity {
    Fatal,
    High,
    Med,
    Low,
}

impl Severity {
    pub open spec fn spec_rank(self) -> u8 {
        match self {
            Severity::Fatal => 4,
            Severity::High => 3,
            Severity::Med => 2,
            Severity::Low => 1,
        }
    }

    pub open spec fn spec_weight(self) -> i32 {
        match self {
            Severity::Fatal => 28,
            Severity::High => 14,
            Severity::Med => 7,
            Severity::Low => 3,
        }
    }

    /// Order of severities: fatal 4, high 3, med 2, low 1.
    pub fn rank(self) -> (r: u8)
        ensures
            r == self.spec_rank(),
    {
        match self {
            Severity::Fatal => 4,
            Severity::High => 3,
            Severity::Med => 2,
            Severity::Low => 1,
        }
    }

    /// Penalty a finding costs its gate: fatal 28, high 14, med 7, low 3.
    pub fn weight(self) -> (w: i32)
        ensures
            w == self.spec_weight(),
    {
        match self {
            Severity::Fatal => 28,
            Severity::High => 14,
            Severity::Med => 7,
            Severity::Low => 3,
        }
    }
}


/// Gate scores, the weighted total, and the count of findings per severity.
#[derive(Clone, Debug)]
pub struct Score {
    pub think: u8,
    pub simple: u8,
    pub surgical: u8,
    pub goal: u8,
    pub deslop: u8,
    pub fatal: usize,
    pub high: usize,
    pub med: usize,
    pub low: usize,
}

/// Σ weight(severity) over the findings charged to gate `g`.
pub open spec fn gate_penalty(fs: Seq<FindingView>, g: Gate) -> int
    decreases fs.len(),
{
    if fs.len() == 0 {
        0
    } else {
        gate_penalty(fs.drop_last(), g) + if fs.last().gate == g {
            fs.last().severity.spec_weight() as int
        } else {
            0
        }
    }
}

/// Number of findings of severity `s`.
pub open spec fn severity_count(fs: Seq<FindingView>, s: Severity) -> nat
    decreases fs.len(),
{
    if fs.len() == 0 {
        0
    } else {
        severity_count(fs.drop_last(), s) + if fs.last().severity == s {
            1nat
        } else {
            0nat
        }
    }
}

/// `v` clamped to `0..=100`.
pub open spec fn clamp(v: int) -> u8 {
    if v < 0 {
        0
    } else if v > 100 {
        100
    } else {
        v as u8
    }
}

/// A gate scores 100 minus the summed weights of its findings, clamped to 0..=100.
pub open spec fn gate_score(fs: Seq<FindingView>, g: Gate) -> u8 {
    clamp(100 - gate_penalty(fs, g))
}

/// round(0.30 think + 0.25 simple + 0.20 surgical + 0.25 goal), halves rounded up.
pub open spec fn weighted(think: int, simple: int, surgical: int, goal: int) -> int {
    (30 * think + 25 * simple + 20 * surgical + 25 * goal + 50) / 100
}

/// The total: the weighted gates, 0 for an empty source, at most 45 once
/// anything is fatal.
pub open spec fn deslop_of(fs: Seq<FindingView>, lines: nat) -> u8 {
    let base = weighted(
        gate_score(fs, Gate::Think) as int,
        gate_score(fs, Gate::Simple) as int,
        gate_score(fs, Gate::Surgical) as int,
        gate_score(fs, Gate::Goal) as int,
    );
    let sized = if lines == 0 {
        0
    } else {
        base
    };
    let capped = if severity_count(fs, Severity::Fatal) > 0 && sized > 45 {
        45
    } else {
        sized
    };
    clamp(capped)
}

/// The score of findings `fs` over a source of `lines` lines.
pub open spec fn score_of(fs: Seq<FindingView>, lines: nat) -> Score {
    Score {
        think: gate_score(fs, Gate::Think),
        simple: gate_score(fs, Gate::Simple),
        surgical: gate_score(fs, Gate::Surgical),
        goal: gate_score(fs, Gate::Goal),
        deslop: deslop_of(fs, lines),
        fatal: severity_count(fs, Severity::Fatal) as usize,
        high: severity_count(fs, Severity::High) as usize,
        med: severity_count(fs, Severity::Med) as usize,
        low: severity_count(fs, Severity::Low) as usize,
    }
}

proof fn lemma_penalty_grows(fs: Seq<FindingView>, g: Gate, k: int)
    requires
        0 <= k <= fs.len(),
    ensures
        0 <= gate_penalty(fs.take(k), g) <= gate_penalty(fs, g),
    decreases fs.len(),
{
    if fs.len() > 0 && k < fs.len() {
        assert(fs.drop_last().take(k) =~= fs.take(k));
        lemma_penalty_grows(fs.drop_last(), g, k);
    } else if fs.len() > 0 {
        assert(fs.take(k) =~= fs);
        lemma_penalty_grows(fs.drop_last(), g, k - 1);
        assert(fs.drop_last().take(k - 1) =~= fs.drop_last());
    }
}

pub proof fn lemma_penalty_concat(a: Seq<FindingView>, b: Seq<FindingView>, g: Gate)
    ensures
        gate_penalty(a + b, g) == gate_penalty(a, g) + gate_penalty(b, g),
    decreases b.len(),
{
    if b.len() == 0 {
        assert(a + b =~= a);
    } else {
        assert((a + b).drop_last() =~= a + b.drop_last());
        lemma_penalty_concat(a, b.drop_last(), g);
    }
}

pub proof fn lemma_count_concat(a: Seq<FindingView>, b: Seq<FindingView>, s: Severity)
    ensures
        severity_count(a + b, s) == severity_count(a, s) + severity_count(b, s),
    decreases b.len(),
{
    if b.len() == 0 {
        assert(a + b =~= a);
    } else {
        assert((a + b).drop_last() =~= a + b.drop_last());
        lemma_count_concat(a, b.drop_last(), s);
    }
}

proof fn lemma_count_bound(fs: Seq<FindingView>, s: Severity)
    ensures
        severity_count(fs, s) <= fs.len(),
    decreases fs.len(),
{
    if fs.len() > 0 {
        lemma_count_bound(fs.drop_last(), s);
    }
}

fn clamp100(v: i32) -> (r: u8)
    ensures
        r == clamp(v as int),
{
    if v < 0 {
        0
    } else if v > 100 {
        100
    } else {
        v as u8
    }
}

/// The score model of the README:
///   gate_i = clamp(100 - Σ weight(severity) for findings of gate_i)
///   deslop = round(0.30 think + 0.25 simple + 0.20 surgical + 0.25 goal)
/// An empty file is untestable: 0. Anything fatal caps the total at 45.
pub fn compute(findings: &[Finding], lines: usize) -> (s: Score)
    ensures
        s == score_of(views(findings@), lines as nat),
{
    let ghost fs = views(findings@);
    let mut think_pen: i32 = 0;
    let mut simple_pen: i32 = 0;
    let mut surgical_pen: i32 = 0;
    let mut goal_pen: i32 = 0;
    let mut fatal: usize = 0;
    let mut high: usize = 0;
    let mut med: usize = 0;
    let mut low: usize = 0;
    let mut i: usize = 0;
    while i < findings.len()
        invariant
            i <= findings.len(),
            fs == views(findings@),
            0 <= think_pen < 128,
            0 <= simple_pen < 128,
            0 <= surgical_pen < 128,
            0 <= goal_pen < 128,
            gate_penalty(fs.take(i as int), Gate::Think) < 100 ==> think_pen == gate_penalty(
                fs.take(i as int),
                Gate::Think,
            ),
            gate_penalty(fs.take(i as int), Gate::Think) >= 100 ==> think_pen >= 100,
            gate_penalty(fs.take(i as int), Gate::Simple) < 100 ==> simple_pen == gate_penalty(
                fs.take(i as int),
                Gate::Simple,
            ),
            gate_penalty(fs.take(i as int), Gate::Simple) >= 100 ==> simple_pen >= 100,
            gate_penalty(fs.take(i as int), Gate::Surgical) < 100 ==> surgical_pen
                == gate_penalty(fs.take(i as int), Gate::Surgical),
            gate_penalty(fs.take(i as int), Gate::Surgical) >= 100 ==> surgical_pen >= 100,
            gate_penalty(fs.take(i as int), Gate::Goal) < 100 ==> goal_pen == gate_penalty(
                fs.take(i as int),
                Gate::Goal,
            ),
            gate_penalty(fs.take(i as int), Gate::Goal) >= 100 ==> goal_pen >= 100,
            fatal == severity_count(fs.take(i as int), Severity::Fatal),
            high == severity_count(fs.take(i as int), Severity::High),
            med == severity_count(fs.take(i as int), Severity::Med),
            low == severity_count(fs.take(i as int), Severity::Low),
        decreases findings.len() - i,
    {
        let f = &findings[i];
        proof {
            let pre = fs.take(i as int);
            let nxt = fs.take(i + 1);
            assert(nxt.drop_last() =~= pre);
            assert(nxt.last() == f@);
            lemma_penalty_grows(fs.take(i as int), Gate::Think, 0);
            lemma_penalty_grows(fs.take(i as int), Gate::Simple, 0);
            lemma_penalty_grows(fs.take(i as int), Gate::Surgical, 0);
            lemma_penalty_grows(fs.take(i as int), Gate::Goal, 0);
            lemma_count_bound(pre, Severity::Fatal);
            lemma_count_bound(pre, Severity::High);
            lemma_count_bound(pre, Severity::Med);
            lemma_count_bound(pre, Severity::Low);
        }
        let w = f.severity.weight();
        match f.gate {
            Gate::Think => {
                if think_pen < 100 {
                    think_pen = think_pen + w;
                }
            },
            Gate::Simple => {
                if simple_pen < 100 {
                    simple_pen = simple_pen + w;
                }
            },
            Gate::Surgical => {
                if surgical_pen < 100 {
                    surgical_pen = surgical_pen + w;
                }
            },
            Gate::Goal => {
                if goal_pen < 100 {
                    goal_pen = goal_pen + w;
                }
            },
        }
        match f.severity {
            Severity::Fatal => fatal = fatal + 1,
            Severity::High => high = high + 1,
            Severity::Med => med = med + 1,
            Severity::Low => low = low + 1,
        }
        i = i + 1;
    }
    proof {
        assert(fs.take(findings.len() as int) =~= fs);
    }
    let think = clamp100(100 - think_pen);
    let simple = clamp100(100 - simple_pen);
    let surgical = clamp100(100 - surgical_pen);
    let goal = clamp100(100 - goal_pen);
    let total: u32 = 30 * (think as u32) + 25 * (simple as u32) + 20 * (surgical as u32) + 25 * (
    goal as u32);
    let mut deslop: u32 = (total + 50) / 100;
    if lines == 0 {
        deslop = 0;
    }
    if fatal > 0 && deslop > 45 {
        deslop = 45;
    }
    Score {
        think,
        simple,
        surgical,
        goal,
        deslop: deslop as u8,
        fatal,
        high,
        med,
        low,
    }
}

/// The verdict line for a total.
pub open spec fn verdict_text(deslop: u8) -> Seq<char> {
    if deslop >= 90 {
        "CLEAN. The compiler nods."@
    } else if deslop >= 75 {
        "MOSTLY HONEST. Residual slop. Cut it."@
    } else if deslop >= 50 {
        "SLOP DETECTED. Do not ship."@
    } else if deslop >= 25 {
        "VIBE CODING. This will page you at 02:00."@
    } else {
        "APOSTASY. Rewrite from the AST up."@
    }
}

impl Score {
    pub fn verdict(&self) -> (v: String)
        ensures
            v@ == verdict_text(self.deslop),
    {
        if self.deslop >= 90 {
            String::from_str("CLEAN. The compiler nods.")
        } else if self.deslop >= 75 {
            String::from_str("MOSTLY HONEST. Residual slop. Cut it.")
        } else if self.deslop >= 50 {
            String::from_str("SLOP DETECTED. Do not ship.")
        } else if self.deslop >= 25 {
            String::from_str("VIBE CODING. This will page you at 02:00.")
        } else {
            String::from_str("APOSTASY. Rewrite from the AST up.")
        }
    }
}

/// Law: one fatal finding caps the total at 45, however clean the rest is.
pub proof fn law_fatal_caps_total(fs: Seq<FindingView>, lines: nat)
    ensures
        severity_count(fs, Severity::Fatal) > 0 ==> deslop_of(fs, lines) <= 45,
{
}

/// Law: for a non-empty source with no fatal finding, the total is the
/// gates weighted 0.30 think, 0.25 simple, 0.20 surgical, 0.25 goal,
/// rounded half up: `100 * deslop` is the weighted sum (in hundredths) less
/// its remainder, with halves counted up. With a fatal finding it is that
/// value capped at 45.
pub proof fn law_total_weights_the_gates(fs: Seq<FindingView>, lines: nat)
    requires
        lines > 0,
    ensures
        ({
            let s = score_of(fs, lines);
            let sum = 30 * s.think + 25 * s.simple + 20 * s.surgical + 25 * s.goal;
            severity_count(fs, Severity::Fatal) == 0 ==> 100 * s.deslop <= sum + 50 < 100
                * s.deslop + 100
        }),
        ({
            let s = score_of(fs, lines);
            let sum = 30 * s.think + 25 * s.simple + 20 * s.surgical + 25 * s.goal;
            severity_count(fs, Severity::Fatal) > 0 ==> (s.deslop == 45 && 4500 <= sum + 50
                || s.deslop < 45 && 100 * s.deslop <= sum + 50 < 100 * s.deslop + 100)
        }),
{
    let s = score_of(fs, lines);
    let sum = 30 * s.think + 25 * s.simple + 20 * s.surgical + 25 * s.goal;
    let w = weighted(s.think as int, s.simple as int, s.surgical as int, s.goal as int);
    assert(0 <= sum <= 10000);
    assert(w == (sum + 50) / 100);
    assert(100 * w <= sum + 50 < 100 * w + 100);
    assert(0 <= w <= 100);
}

/// Law: every gate counts with its own weight: ten more points of think add
/// three to the total, and four of simple, five of surgical or four of goal
/// add one.
pub proof fn law_each_gate_counts(think: int, simple: int, surgical: int, goal: int)
    ensures
        weighted(think + 10, simple, surgical, goal) == weighted(think, simple, surgical, goal) + 3,
        weighted(think, simple + 4, surgical, goal) == weighted(think, simple, surgical, goal) + 1,
        weighted(think, simple, surgical + 5, goal) == weighted(think, simple, surgical, goal) + 1,
        weighted(think, simple, surgical, goal + 4) == weighted(think, simple, surgical, goal) + 1,
{
}

/// Law: one more finding charges its own gate, and only it, by the weight
/// of its severity: fatal 28, high 14, med 7, low 3.
pub proof fn law_finding_charges_its_gate(fs: Seq<FindingView>, f: FindingView, g: Gate)
    ensures
        gate_penalty(fs.push(f), g) == gate_penalty(fs, g) + if f.gate == g {
            match f.severity {
                Severity::Fatal => 28int,
                Severity::High => 14int,
                Severity::Med => 7int,
                Severity::Low => 3int,
            }
        } else {
            0int
        },
{
    assert(fs.push(f).drop_last() =~= fs);
}

/// Law: the verdict reads the total by bands: 90 and above CLEAN, 75 and
/// above MOSTLY HONEST, 50 and above SLOP DETECTED, 25 and above VIBE
/// CODING, below that APOSTASY.
pub proof fn law_verdict_bands(d: u8)
    ensures
        d >= 90 ==> verdict_text(d) == "CLEAN. The compiler nods."@,
        75 <= d < 90 ==> verdict_text(d) == "MOSTLY HONEST. Residual slop. Cut it."@,
        50 <= d < 75 ==> verdict_text(d) == "SLOP DETECTED. Do not ship."@,
        25 <= d < 50 ==> verdict_text(d) == "VIBE CODING. This will page you at 02:00."@,
        d < 25 ==> verdict_text(d) == "APOSTASY. Rewrite from the AST up."@,
{
}

/// Law: an empty source is untestable and scores 0.
pub proof fn law_empty_source_scores_zero(fs: Seq<FindingView>)
    ensures
        deslop_of(fs, 0) == 0,
{
}

/// Law: a non-empty source without findings scores 100 on every gate and in
/// total, and its verdict is CLEAN.
pub proof fn law_clean_source_scores_full(lines: nat)
    requires
        lines > 0,
    ensures
        score_of(Seq::<FindingView>::empty(), lines).think == 100,
        score_of(Seq::<FindingView>::empty(), lines).simple == 100,
        score_of(Seq::<FindingView>::empty(), lines).surgical == 100,
        score_of(Seq::<FindingView>::empty(), lines).goal == 100,
        score_of(Seq::<FindingView>::empty(), lines).deslop == 100,
        score_of(Seq::<FindingView>::empty(), lines).fatal == 0,
        verdict_text(score_of(Seq::<FindingView>::empty(), lines).deslop) == "CLEAN. The compiler nods."@,
{
}

/// Law: every gate score and the total lie in 0..=100.
pub proof fn law_scores_in_range(fs: Seq<FindingView>, lines: nat)
    ensures
        gate_score(fs, Gate::Think) <= 100,
        gate_score(fs, Gate::Simple) <= 100,
        gate_score(fs, Gate::Surgical) <= 100,
        gate_score(fs, Gate::Goal) <= 100,
        deslop_of(fs, lines) <= 100,
{
}

/// Law: each finding belongs to exactly one severity, so the four counts add
/// up to the number of findings.
pub proof fn law_counts_partition(fs: Seq<FindingView>)
    ensures
        severity_count(fs, Severity::Fatal) + severity_count(fs, Severity::High) + severity_count(
            fs,
            Severity::Med,
        ) + severity_count(fs, Severity::Low) == fs.len(),
    decreases fs.len(),
{
    if fs.len() > 0 {
        law_counts_partition(fs.drop_last());
    }
}

/// Law: one more finding never raises a gate score or the total.
pub proof fn law_more_findings_never_score_higher(fs: Seq<FindingView>, f: FindingView, lines: nat)
    ensures
        gate_score(fs.push(f), Gate::Think) <= gate_score(fs, Gate::Think),
        gate_score(fs.push(f), Gate::Simple) <= gate_score(fs, Gate::Simple),
        gate_score(fs.push(f), Gate::Surgical) <= gate_score(fs, Gate::Surgical),
        gate_score(fs.push(f), Gate::Goal) <= gate_score(fs, Gate::Goal),
        deslop_of(fs.push(f), lines) <= deslop_of(fs, lines),
{
    let g = fs.push(f);
    assert(g.drop_last() =~= fs);
    assert(g.last() == f);
    let (t0, s0, u0, o0) = (
        gate_score(fs, Gate::Think) as int,
        gate_score(fs, Gate::Simple) as int,
        gate_score(fs, Gate::Surgical) as int,
        gate_score(fs, Gate::Goal) as int,
    );
    let (t1, s1, u1, o1) = (
        gate_score(g, Gate::Think) as int,
        gate_score(g, Gate::Simple) as int,
        gate_score(g, Gate::Surgical) as int,
        gate_score(g, Gate::Goal) as int,
    );
    assert(30 * t1 + 25 * s1 + 20 * u1 + 25 * o1 <= 30 * t0 + 25 * s0 + 20 * u0 + 25 * o0);
    assert(weighted(t1, s1, u1, o1) <= weighted(t0, s0, u0, o0)) by {
        let a = 30 * t1 + 25 * s1 + 20 * u1 + 25 * o1 + 50;
        let b = 30 * t0 + 25 * s0 + 20 * u0 + 25 * o0 + 50;
        assert(a / 100 <= b / 100) by (nonlinear_arith)
            requires
                0 <= a <= b,
        ;
    }
}

/// Law: a fatal finding makes the verdict one of the two lowest.
pub proof fn law_fatal_verdict(fs: Seq<FindingView>, lines: nat)
    requires
        severity_count(fs, Severity::Fatal) > 0,
    ensures
        verdict_text(deslop_of(fs, lines)) == "VIBE CODING. This will page you at 02:00."@
            || verdict_text(deslop_of(fs, lines)) == "APOSTASY. Rewrite from the AST up."@,
{
}

/// Law: severities order the same way by rank and by weight.
pub proof fn law_rank_agrees_with_weight(a: Severity, b: Severity)
    ensures
        a.spec_rank() < b.spec_rank() <==> a.spec_weight() < b.spec_weight(),
{
}

proof fn lemma_same_multiset(a: Seq<FindingView>, b: Seq<FindingView>, g: Gate, s: Severity)
    requires
        a.to_multiset() == b.to_multiset(),
    ensures
        gate_penalty(a, g) == gate_penalty(b, g),
        severity_count(a, s) == severity_count(b, s),
    decreases a.len(),
{
    broadcast use vstd::seq_lib::group_to_multiset_ensures, vstd::multiset::group_multiset_axioms;

    if a.len() == 0 {
        assert(b.to_multiset().len() == 0);
        assert(b =~= a);
    } else {
        let x = a.last();
        let a1 = a.drop_last();
        assert(a =~= a1.push(x));
        assert(a.to_multiset() == a1.to_multiset().insert(x));
        assert(b.to_multiset().count(x) > 0);
        assert(b.contains(x));
        let j = choose|j: int| 0 <= j < b.len() && b[j] == x;
        let b1 = b.remove(j);
        assert(b1.to_multiset() == b.to_multiset().remove(x));
        assert(a1.to_multiset() =~= b1.to_multiset());
        lemma_same_multiset(a1, b1, g, s);
        let l = b.take(j);
        let r = b.skip(j + 1);
        assert(b =~= l + seq![x] + r);
        assert(b1 =~= l + r);
        lemma_penalty_concat(l + seq![x], r, g);
        lemma_penalty_concat(l, seq![x], g);
        lemma_penalty_concat(l, r, g);
        lemma_count_concat(l + seq![x], r, s);
        lemma_count_concat(l, seq![x], s);
        lemma_count_concat(l, r, s);
        assert(seq![x].drop_last() =~= Seq::<FindingView>::empty());
        assert(gate_penalty(Seq::<FindingView>::empty(), g) == 0);
        assert(severity_count(Seq::<FindingView>::empty(), s) == 0);
        assert(gate_penalty(seq![x], g) == gate_penalty(a, g) - gate_penalty(a1, g));
        assert(severity_count(seq![x], s) == severity_count(a, s) - severity_count(a1, s));
        assert(gate_penalty(b, g) == gate_penalty(l + seq![x] + r, g));
        assert(severity_count(b, s) == severity_count(l + seq![x] + r, s));
        assert(gate_penalty(b1, g) == gate_penalty(l + r, g));
        assert(severity_count(b1, s) == severity_count(l + r, s));
    }
}

/// Law: the score does not depend on the order of the findings: any
/// reordering (the same findings, as a multiset) scores the same.
pub proof fn law_score_ignores_order(a: Seq<FindingView>, b: Seq<FindingView>, lines: nat)
    requires
        a.to_multiset() == b.to_multiset(),
    ensures
        score_of(a, lines) == score_of(b, lines),
{
    lemma_same_multiset(a, b, Gate::Think, Severity::Fatal);
    lemma_same_multiset(a, b, Gate::Simple, Severity::High);
    lemma_same_multiset(a, b, Gate::Surgical, Severity::Med);
    lemma_same_multiset(a, b, Gate::Goal, Severity::Low);
}

} // verus!
