//! Tuning recommendations and the engine that collects them from the rules.

use vstd::prelude::*;
use crate::anomaly::Severity;
use crate::model::JvmSnapshot;
use crate::rules::{Rule, rule_fits, rule_rec, run_rule};

verus! {

/// What a recommendation tunes.
#[derive(Debug, Clone, Copy, PartialEq, Eq, Hash)]
pub enum Category {
    HeapSizing,
    GcSelection,
    G1Tuning,
    ZgcTuning,
    ShenandoahTuning,
    Metaspace,
    ThreadPool,
    HikariCp,
    CodeLevel,
    Executor,
    Cache,
    Http,
    WebServer,
    Logging,
}

/// A tuning recommendation with copy-pasteable JVM flags and application
/// properties.
#[derive(Debug, Clone)]
pub struct Recommendation {
    /// Stable machine-readable id ("increase_xmx", "switch_to_zgc", ...).
    pub id: String,
    pub category: Category,
    pub severity: Severity,
    pub title: String,
    /// What was observed.
    pub current_state: String,
    /// What to change.
    pub suggestion: String,
    /// Why.
    pub rationale: String,
    /// Confidence in millionths (0 ..= 1_000_000).
    pub confidence: i64,
    pub jvm_flags: Vec<String>,
    /// `application.properties` lines.
    pub config_changes: Vec<String>,
}

/// A recommendation as the contracts see it.
pub struct RecommendationView {
    pub id: Seq<char>,
    pub category: Category,
    pub severity: Severity,
    pub title: Seq<char>,
    pub current_state: Seq<char>,
    pub suggestion: Seq<char>,
    pub rationale: Seq<char>,
    pub confidence: int,
    pub jvm_flags: Seq<Seq<char>>,
    pub config_changes: Seq<Seq<char>>,
}

/// The texts of a sequence of strings.
pub open spec fn texts(v: Seq<String>) -> Seq<Seq<char>> {
    v.map_values(|s: String| s@)
}

impl View for Recommendation {
    type V = RecommendationView;

    open spec fn view(&self) -> RecommendationView {
        RecommendationView {
            id: self.id@,
            category: self.category,
            severity: self.severity,
            title: self.title@,
            current_state: self.current_state@,
            suggestion: self.suggestion@,
            rationale: self.rationale@,
            confidence: self.confidence as int,
            jvm_flags: texts(self.jvm_flags@),
            config_changes: texts(self.config_changes@),
        }
    }
}

pub open spec fn rec_views(v: Seq<Recommendation>) -> Seq<RecommendationView> {
    v.map_values(|r: Recommendation| r@)
}

/// What the engine returns: the recommendation of each rule that fires, in
/// registration order, kept when its confidence reaches `min`.
pub open spec fn engine_output(
    rules: Seq<Rule>,
    current: JvmSnapshot,
    history: Seq<JvmSnapshot>,
    min: int,
) -> Seq<RecommendationView>
    decreases rules.len(),
{
    if rules.len() == 0 {
        Seq::<RecommendationView>::empty()
    } else {
        let prev = engine_output(rules.drop_last(), current, history, min);
        match rule_rec(rules.last(), current, history) {
            Some(r) => if r.confidence >= min {
                prev.push(r)
            } else {
                prev
            },
            None => prev,
        }
    }
}

/// Every recommendation the engine returns reaches the confidence threshold
/// and is what one of its rules recommends.
pub proof fn lemma_engine_output_filtered(
    rules: Seq<Rule>,
    current: JvmSnapshot,
    history: Seq<JvmSnapshot>,
    min: int,
)
    ensures
        forall|i: int|
            0 <= i < engine_output(rules, current, history, min).len() ==> {
                &&& (#[trigger] engine_output(rules, current, history, min)[i]).confidence >= min
                &&& exists|j: int|
                    0 <= j < rules.len() && rule_rec(rules[j], current, history) == Some(
                        engine_output(rules, current, history, min)[i],
                    )
            },
        engine_output(rules, current, history, min).len() <= rules.len(),
    decreases rules.len(),
{
    if rules.len() > 0 {
        let front = rules.drop_last();
        lemma_engine_output_filtered(front, current, history, min);
        let out = engine_output(rules, current, history, min);
        let prev = engine_output(front, current, history, min);
        assert forall|i: int| 0 <= i < out.len() implies {
            &&& (#[trigger] out[i]).confidence >= min
            &&& exists|j: int|
                0 <= j < rules.len() && rule_rec(rules[j], current, history) == Some(out[i])
        } by {
            if i < prev.len() {
                assert(out[i] == prev[i]);
                let j = choose|j: int|
                    0 <= j < front.len() && rule_rec(front[j], current, history) == Some(prev[i]);
                assert(rules[j] == front[j]);
            } else {
                assert(rules[rules.len() - 1] == rules.last());
            }
        }
    }
}

/// Registered rules and the confidence below which their recommendations
/// are dropped.
pub struct RecommendationEngine {
    rules: Vec<Rule>,
    /// Minimum confidence, in millionths.
    pub min_confidence: i64,
}

impl RecommendationEngine {
    pub closed spec fn rules(&self) -> Seq<Rule> {
        self.rules@
    }

    /// The confidence threshold, in millionths.
    pub closed spec fn threshold(&self) -> int {
        self.min_confidence as int
    }

    /// An engine with no rules.
    pub fn new(min_confidence: i64) -> (r: Self)
        ensures
            r.rules() == Seq::<Rule>::empty(),
            r.threshold() == min_confidence,
    {
        RecommendationEngine { rules: Vec::new(), min_confidence }
    }

    /// Adds a rule after those already registered.
    pub fn register(&mut self, rule: Rule)
        ensures
            final(self).rules() == old(self).rules().push(rule),
            final(self).threshold() == old(self).threshold(),
    {
        self.rules.push(rule);
    }

    /// Runs every rule and returns, in registration order, the
    /// recommendations whose confidence reaches `min_confidence`.
    pub fn evaluate(&self, current: &JvmSnapshot, history: &[JvmSnapshot]) -> (r: Vec<
        Recommendation,
    >)
        requires
            forall|i: int|
                0 <= i < self.rules().len() ==> rule_fits(#[trigger] self.rules()[i], *current),
        ensures
            rec_views(r@) == engine_output(
                self.rules(),
                *current,
                history@,
                self.threshold(),
            ),
    {
        let mut out: Vec<Recommendation> = Vec::new();
        let mut i: usize = 0;
        while i < self.rules.len()
            invariant
                i <= self.rules@.len(),
                forall|k: int|
                    0 <= k < self.rules().len() ==> rule_fits(#[trigger] self.rules()[k], *current),
                rec_views(out@) == engine_output(
                    self.rules@.take(i as int),
                    *current,
                    history@,
                    self.min_confidence as int,
                ),
            decreases self.rules@.len() - i,
        {
            let ghost before = out@;
            assert(self.rules()[i as int] == self.rules@[i as int]);
            proof {
                assert(self.rules@.take(i + 1).drop_last() =~= self.rules@.take(i as int));
                assert(self.rules@.take(i + 1).last() == self.rules@[i as int]);
            }
            match run_rule(self.rules[i], current, history) {
                Some(rec) => {
                    if rec.confidence >= self.min_confidence {
                        out.push(rec);
                        assert(rec_views(out@) =~= rec_views(before).push(out@.last()@));
                    }
                },
                None => {},
            }
            i += 1;
        }
        assert(self.rules@.take(self.rules@.len() as int) =~= self.rules@);
        out
    }

    pub fn rule_count(&self) -> (r: usize)
        ensures
            r == self.rules().len(),
    {
        self.rules.len()
    }

    /// The rule registered at position `i`.
    pub fn rule_at(&self, i: usize) -> (r: Rule)
        requires
            i < self.rules().len(),
        ensures
            r == self.rules()[i as int],
    {
        self.rules[i]
    }
}

} // verus!
