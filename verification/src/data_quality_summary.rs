//! Aggregate data-quality coverage: grade distribution, gap counts, average.
use vstd::prelude::*;
use crate::text::{str_eq, owned};
use crate::sorting::{text_lt, str_lt, lemma_text_lt_total};

verus! {

/// The quality grade of one reduced trace.
#[derive(Debug, Clone, Copy, PartialEq, Eq, Structural)]
pub enum DataQualityGrade {
    A,
    B,
    C,
    D,
    F,
}

/// What the summary reads of one assessment: its score, its grade, and the
/// stable keys of its findings.
#[derive(Debug, Clone, PartialEq, Eq)]
pub struct AssessmentFacts {
    pub score: u8,
    pub grade: DataQualityGrade,
    pub finding_keys: Vec<String>,
}

/// The number of traces of one grade.
#[derive(Debug, Clone, Copy, PartialEq, Eq, Structural)]
pub struct GradeCount {
    pub grade: char,
    pub count: u64,
}

/// The number of traces reporting one quality gap.
#[derive(Debug, Clone, PartialEq, Eq)]
pub struct GapCount {
    pub gap: String,
    pub count: u64,
}

/// The quality distribution of a selection of traces.
#[derive(Debug, Clone, PartialEq, Eq)]
pub struct DataQualitySummary {
    /// How many assessments were summarized.
    pub assessments: u64,
    /// Traces per grade, in `A` to `F` order.
    pub grades: Vec<GradeCount>,
    /// Traces per distinct gap, in key order.
    pub gaps: Vec<GapCount>,
    /// The average score, rounded down; `None` without assessments.
    pub average_score: Option<u8>,
    /// The rubric version of the assessments.
    pub definition_version: String,
}

/// Assessments of grade `g`.
pub open spec fn grade_total(assessments: Seq<AssessmentFacts>, g: DataQualityGrade) -> nat
    decreases assessments.len(),
{
    if assessments.len() == 0 {
        0
    } else {
        grade_total(assessments.drop_last(), g) + if assessments.last().grade == g { 1nat } else { 0nat }
    }
}

/// The sum of the scores.
pub open spec fn score_total(assessments: Seq<AssessmentFacts>) -> nat
    decreases assessments.len(),
{
    if assessments.len() == 0 {
        0
    } else {
        score_total(assessments.drop_last()) + (assessments.last().score as nat)
    }
}

/// Every finding key, assessment by assessment.
pub open spec fn all_keys(assessments: Seq<AssessmentFacts>) -> Seq<Seq<char>>
    decreases assessments.len(),
{
    if assessments.len() == 0 {
        Seq::empty()
    } else {
        all_keys(assessments.drop_last()) + assessments.last().finding_keys@.map_values(|k: String| k@)
    }
}

/// How often `key` occurs in `keys`.
pub open spec fn occurrences(keys: Seq<Seq<char>>, key: Seq<char>) -> nat
    decreases keys.len(),
{
    if keys.len() == 0 {
        0
    } else {
        occurrences(keys.drop_last(), key) + if keys.last() == key { 1nat } else { 0nat }
    }
}

/// The gap list names each key of `keys` once, in strictly increasing key
/// order, with its number of occurrences.
pub open spec fn gaps_count(gaps: Seq<GapCount>, keys: Seq<Seq<char>>) -> bool {
    &&& forall|i: int| 0 <= i < gaps.len() - 1 ==> text_lt(#[trigger] gaps[i].gap@, gaps[i + 1].gap@)
    &&& forall|i: int|
        0 <= i < gaps.len() ==> #[trigger] gaps[i].count == occurrences(keys, gaps[i].gap@)
            && gaps[i].count > 0
    &&& forall|k: Seq<char>| #[trigger] occurrences(keys, k) > 0 ==> exists|i: int| 0 <= i < gaps.len() && #[trigger] gaps[i].gap@ == k
}

proof fn lemma_text_lt_irreflexive(a: Seq<char>)
    ensures
        !text_lt(a, a),
    decreases a.len(),
{
    if a.len() > 0 {
        lemma_text_lt_irreflexive(a.drop_first());
    }
}

proof fn lemma_occurrences_push(keys: Seq<Seq<char>>, x: Seq<char>, k: Seq<char>)
    ensures
        occurrences(keys.push(x), k) == occurrences(keys, k) + if x == k { 1nat } else { 0nat },
{
    assert(keys.push(x).drop_last() == keys);
}

/// Counts one more occurrence of `key` in a gap list.
fn count_gap(gaps: &mut Vec<GapCount>, key: &str, Ghost(keys): Ghost<Seq<Seq<char>>>)
    requires
        gaps_count(old(gaps)@, keys),
        occurrences(keys, key@) < u64::MAX,
        forall|i: int| 0 <= i < old(gaps)@.len() ==> #[trigger] old(gaps)@[i].count <= occurrences(keys, old(gaps)@[i].gap@),
    ensures
        gaps_count(final(gaps)@, keys.push(key@)),
{
    let ghost new_keys = keys.push(key@);
    let ghost before = gaps@;
    proof {
        assert forall|k: Seq<char>| true implies #[trigger] occurrences(new_keys, k) == occurrences(keys, k) + if key@ == k { 1nat } else { 0nat } by {
            lemma_occurrences_push(keys, key@, k);
        }
    }
    let mut p: usize = 0;
    while p < gaps.len() && str_lt(gaps[p].gap.as_str(), key)
        invariant
            gaps@ == before,
            p <= before.len(),
            forall|i: int| 0 <= i < p ==> text_lt(#[trigger] before[i].gap@, key@),
        decreases before.len() - p,
    {
        p = p + 1;
    }
    if p < gaps.len() && str_eq(gaps[p].gap.as_str(), key) {
        let old_gap = gaps.remove(p);
        let updated = GapCount { gap: old_gap.gap, count: old_gap.count + 1 };
        gaps.insert(p, updated);
        proof {
            assert(gaps@ == before.update(p as int, updated));
            assert forall|i: int| 0 <= i < gaps@.len() implies #[trigger] gaps@[i].count == occurrences(new_keys, gaps@[i].gap@) && gaps@[i].count > 0 by {
                if i != p {
                    assert(gaps@[i] == before[i]);
                    assert(before[i].gap@ != key@) by {
                        if before[i].gap@ == key@ {
                            // keys are strictly increasing, so no other entry holds the key
                            lemma_gaps_distinct(before, keys, i, p as int);
                        }
                    }
                }
            }
            assert forall|i: int| 0 <= i < gaps@.len() - 1 implies text_lt(#[trigger] gaps@[i].gap@, gaps@[i + 1].gap@) by {
                assert(gaps@[i].gap@ == before[i].gap@);
                assert(gaps@[i + 1].gap@ == before[i + 1].gap@);
            }
            assert forall|k: Seq<char>| #[trigger] occurrences(new_keys, k) > 0 implies exists|i: int| 0 <= i < gaps@.len() && #[trigger] gaps@[i].gap@ == k by {
                if k == key@ {
                    assert(gaps@[p as int].gap@ == k);
                } else {
                    let i = choose|i: int| 0 <= i < before.len() && #[trigger] before[i].gap@ == k;
                    assert(gaps@[i].gap@ == k);
                }
            }
        }
    } else {
        let gap = GapCount { gap: owned(key), count: 1 };
        proof {
            // the key was not counted before
            assert forall|i: int| 0 <= i < before.len() implies #[trigger] before[i].gap@ != key@ by {
                if before[i].gap@ == key@ {
                    if i < p {
                        lemma_text_lt_irreflexive(key@);
                    } else {
                        lemma_gaps_ordered_from(before, keys, p as int, i);
                        if p < before.len() {
                            lemma_text_lt_irreflexive(key@);
                        }
                    }
                }
            }
            assert(occurrences(keys, key@) == 0) by {
                if occurrences(keys, key@) > 0 {
                    let i = choose|i: int| 0 <= i < before.len() && #[trigger] before[i].gap@ == key@;
                }
            }
            if p < before.len() {
                assert(before[p as int].gap@ != key@);
                lemma_text_lt_total(before[p as int].gap@, key@);
            }
        }
        gaps.insert(p, gap);
        proof {
            assert(gaps@ == before.insert(p as int, gap));
            assert forall|i: int| 0 <= i < gaps@.len() implies #[trigger] gaps@[i].count == occurrences(new_keys, gaps@[i].gap@) && gaps@[i].count > 0 by {
                if i < p {
                    assert(gaps@[i] == before[i]);
                } else if i > p {
                    assert(gaps@[i] == before[i - 1]);
                }
            }
            assert forall|i: int| 0 <= i < gaps@.len() - 1 implies text_lt(#[trigger] gaps@[i].gap@, gaps@[i + 1].gap@) by {
                if i + 1 < p {
                    assert(gaps@[i] == before[i]);
                    assert(gaps@[i + 1] == before[i + 1]);
                } else if i + 1 == p {
                    assert(gaps@[i] == before[i]);
                } else if i == p {
                    assert(gaps@[i + 1] == before[i]);
                } else {
                    assert(gaps@[i] == before[i - 1]);
                    assert(gaps@[i + 1] == before[i]);
                }
            }
            assert forall|k: Seq<char>| #[trigger] occurrences(new_keys, k) > 0 implies exists|i: int| 0 <= i < gaps@.len() && #[trigger] gaps@[i].gap@ == k by {
                if k == key@ {
                    assert(gaps@[p as int].gap@ == k);
                } else {
                    let i = choose|i: int| 0 <= i < before.len() && #[trigger] before[i].gap@ == k;
                    if i < p {
                        assert(gaps@[i].gap@ == k);
                    } else {
                        assert(gaps@[i + 1].gap@ == k);
                    }
                }
            }
        }
    }
}

proof fn lemma_gaps_ordered_from(gaps: Seq<GapCount>, keys: Seq<Seq<char>>, a: int, b: int)
    requires
        gaps_count(gaps, keys),
        0 <= a <= b < gaps.len(),
        a < b,
    ensures
        text_lt(gaps[a].gap@, gaps[b].gap@),
    decreases b - a,
{
    if b == a + 1 {
    } else {
        lemma_gaps_ordered_from(gaps, keys, a, b - 1);
        lemma_text_lt_transitive(gaps[a].gap@, gaps[b - 1].gap@, gaps[b].gap@);
    }
}

proof fn lemma_gaps_distinct(gaps: Seq<GapCount>, keys: Seq<Seq<char>>, a: int, b: int)
    requires
        gaps_count(gaps, keys),
        0 <= a < gaps.len(),
        0 <= b < gaps.len(),
        a != b,
    ensures
        gaps[a].gap@ != gaps[b].gap@,
{
    if a < b {
        lemma_gaps_ordered_from(gaps, keys, a, b);
        lemma_text_lt_irreflexive(gaps[a].gap@);
    } else {
        lemma_gaps_ordered_from(gaps, keys, b, a);
        lemma_text_lt_irreflexive(gaps[b].gap@);
    }
}

proof fn lemma_text_lt_transitive(a: Seq<char>, b: Seq<char>, c: Seq<char>)
    requires
        text_lt(a, b),
        text_lt(b, c),
    ensures
        text_lt(a, c),
    decreases a.len(),
{
    if a.len() > 0 && b.len() > 0 && c.len() > 0 && a[0] == b[0] && b[0] == c[0] {
        lemma_text_lt_transitive(a.drop_first(), b.drop_first(), c.drop_first());
    }
}

proof fn lemma_occurrences_bound(keys: Seq<Seq<char>>, k: Seq<char>)
    ensures
        occurrences(keys, k) <= keys.len(),
    decreases keys.len(),
{
    if keys.len() > 0 {
        lemma_occurrences_bound(keys.drop_last(), k);
    }
}

proof fn lemma_all_keys_prefix_len(s: Seq<AssessmentFacts>, i: int)
    requires
        0 <= i <= s.len(),
    ensures
        all_keys(s.subrange(0, i)).len() <= all_keys(s).len(),
    decreases s.len() - i,
{
    if i < s.len() {
        lemma_all_keys_prefix_len(s, i + 1);
        let next = s.subrange(0, i + 1);
        assert(next.drop_last() == s.subrange(0, i));
    } else {
        assert(s.subrange(0, i) == s);
    }
}

/// The summary of `assessments` under a rubric version.
pub open spec fn summary_matches(summary: DataQualitySummary, assessments: Seq<AssessmentFacts>, version: Seq<char>) -> bool {
    &&& summary.assessments == assessments.len()
    &&& summary.grades@ == seq![
        GradeCount { grade: 'A', count: grade_total(assessments, DataQualityGrade::A) as u64 },
        GradeCount { grade: 'B', count: grade_total(assessments, DataQualityGrade::B) as u64 },
        GradeCount { grade: 'C', count: grade_total(assessments, DataQualityGrade::C) as u64 },
        GradeCount { grade: 'D', count: grade_total(assessments, DataQualityGrade::D) as u64 },
        GradeCount { grade: 'F', count: grade_total(assessments, DataQualityGrade::F) as u64 },
    ]
    &&& gaps_count(summary.gaps@, all_keys(assessments))
    &&& summary.average_score == (if assessments.len() == 0 {
        None
    } else {
        Some((score_total(assessments) / assessments.len()) as u8)
    })
    &&& summary.definition_version@ == version
}

proof fn lemma_grade_total_bound(s: Seq<AssessmentFacts>, g: DataQualityGrade)
    ensures
        grade_total(s, g) <= s.len(),
    decreases s.len(),
{
    if s.len() > 0 {
        lemma_grade_total_bound(s.drop_last(), g);
    }
}

proof fn lemma_score_total_bound(s: Seq<AssessmentFacts>)
    ensures
        score_total(s) <= 255 * s.len(),
    decreases s.len(),
{
    if s.len() > 0 {
        lemma_score_total_bound(s.drop_last());
    }
}

/// Summarizes quality assessments without turning absent evidence into
/// success: an empty selection has no average, and every grade is listed.
pub fn summarize_data_quality(assessments: &Vec<AssessmentFacts>, definition_version: &str) -> (summary: DataQualitySummary)
    requires
        assessments@.len() <= u64::MAX / 256,
        all_keys(assessments@).len() < u64::MAX,
    ensures
        summary_matches(summary, assessments@, definition_version@),
{
    let ghost all = assessments@;
    let mut counts: [u64; 5] = [0, 0, 0, 0, 0];
    let mut gaps: Vec<GapCount> = Vec::new();
    let mut total_score: u64 = 0;
    let mut total: u64 = 0;
    let mut i: usize = 0;
    while i < assessments.len()
        invariant
            all == assessments@,
            all.len() <= u64::MAX / 256,
            all_keys(all).len() < u64::MAX,
            i <= all.len(),
            total == i,
            total_score == score_total(all.subrange(0, i as int)),
            counts[0] == grade_total(all.subrange(0, i as int), DataQualityGrade::A),
            counts[1] == grade_total(all.subrange(0, i as int), DataQualityGrade::B),
            counts[2] == grade_total(all.subrange(0, i as int), DataQualityGrade::C),
            counts[3] == grade_total(all.subrange(0, i as int), DataQualityGrade::D),
            counts[4] == grade_total(all.subrange(0, i as int), DataQualityGrade::F),
            gaps_count(gaps@, all_keys(all.subrange(0, i as int))),
        decreases all.len() - i,
    {
        let a = &assessments[i];
        let ghost prefix = all.subrange(0, i as int);
        let ghost next = all.subrange(0, i + 1);
        proof {
            assert(next.drop_last() == prefix);
            assert(next.last() == all[i as int]);
            lemma_score_total_bound(next);
            lemma_grade_total_bound(prefix, DataQualityGrade::A);
            lemma_grade_total_bound(prefix, DataQualityGrade::B);
            lemma_grade_total_bound(prefix, DataQualityGrade::C);
            lemma_grade_total_bound(prefix, DataQualityGrade::D);
            lemma_grade_total_bound(prefix, DataQualityGrade::F);
            lemma_all_keys_prefix_len(all, i + 1);
        }
        total = total + 1;
        total_score = total_score + a.score as u64;
        match a.grade {
            DataQualityGrade::A => { counts[0] = counts[0] + 1; },
            DataQualityGrade::B => { counts[1] = counts[1] + 1; },
            DataQualityGrade::C => { counts[2] = counts[2] + 1; },
            DataQualityGrade::D => { counts[3] = counts[3] + 1; },
            DataQualityGrade::F => { counts[4] = counts[4] + 1; },
        }
        let ghost base = all_keys(prefix);
        let mut j: usize = 0;
        while j < a.finding_keys.len()
            invariant
                0 <= i < all.len(),
                all_keys(all).len() < u64::MAX,
                *a == all[i as int],
                base == all_keys(all.subrange(0, i as int)),
                all_keys(all.subrange(0, i + 1)) == base + a.finding_keys@.map_values(|k: String| k@),
                all_keys(all.subrange(0, i + 1)).len() <= all_keys(all).len(),
                j <= a.finding_keys@.len(),
                gaps_count(gaps@, base + a.finding_keys@.subrange(0, j as int).map_values(|k: String| k@)),
            decreases a.finding_keys@.len() - j,
        {
            let ghost keys = base + a.finding_keys@.subrange(0, j as int).map_values(|k: String| k@);
            proof {
                lemma_occurrences_bound(keys, a.finding_keys@[j as int]@);
                assert(keys.len() < all_keys(all.subrange(0, i + 1)).len());
                assert forall|g: int| 0 <= g < gaps@.len() implies #[trigger] gaps@[g].count <= occurrences(keys, gaps@[g].gap@) by {}
            }
            count_gap(&mut gaps, a.finding_keys[j].as_str(), Ghost(keys));
            proof {
                assert(keys.push(a.finding_keys@[j as int]@) == base + a.finding_keys@.subrange(0, j + 1).map_values(|k: String| k@));
            }
            j = j + 1;
        }
        proof {
            assert(a.finding_keys@.subrange(0, a.finding_keys@.len() as int) == a.finding_keys@);
        }
        i = i + 1;
    }
    proof {
        assert(all.subrange(0, all.len() as int) == all);
    }
    let mut grades: Vec<GradeCount> = Vec::new();
    grades.push(GradeCount { grade: 'A', count: counts[0] });
    grades.push(GradeCount { grade: 'B', count: counts[1] });
    grades.push(GradeCount { grade: 'C', count: counts[2] });
    grades.push(GradeCount { grade: 'D', count: counts[3] });
    grades.push(GradeCount { grade: 'F', count: counts[4] });
    let average_score = if total > 0 {
        proof {
            lemma_score_total_bound(all);
            assert(total_score / total <= 255) by (nonlinear_arith)
                requires
                    total_score <= 255 * total,
                    total > 0,
            ;
        }
        Some((total_score / total) as u8)
    } else {
        None
    };
    let summary = DataQualitySummary {
        assessments: total,
        grades,
        gaps,
        average_score,
        definition_version: owned(definition_version),
    };
    assert(summary.assessments == all.len());
    assert(gaps_count(summary.gaps@, all_keys(all)));
    assert(summary.grades@ == seq![
        GradeCount { grade: 'A', count: grade_total(all, DataQualityGrade::A) as u64 },
        GradeCount { grade: 'B', count: grade_total(all, DataQualityGrade::B) as u64 },
        GradeCount { grade: 'C', count: grade_total(all, DataQualityGrade::C) as u64 },
        GradeCount { grade: 'D', count: grade_total(all, DataQualityGrade::D) as u64 },
        GradeCount { grade: 'F', count: grade_total(all, DataQualityGrade::F) as u64 },
    ]);
    assert(summary.average_score == (if all.len() == 0 {
        None
    } else {
        Some((score_total(all) / all.len()) as u8)
    }));
    summary
}

} // verus!
