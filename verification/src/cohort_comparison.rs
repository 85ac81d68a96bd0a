//! Admission of two cohorts to a comparison: consistent counts and enough
//! completed observations. The rates themselves are computed outside.
use vstd::prelude::*;

verus! {

/// Counts of one frozen cohort selection.
#[derive(Debug, Clone, Copy, PartialEq, Eq)]
pub struct CohortInput {
    pub sample_size: u64,
    pub completed_observations: u64,
    pub successful_observations: u64,
    pub missing_observations: u64,
    pub metric_definition: &'static str,
}

/// Why a comparison is refused before any misleading delta is computed.
#[derive(Debug, Clone, Copy, PartialEq, Eq, Structural)]
pub enum ComparisonError {
    InsufficientCompletedObservations,
    InvalidCounts,
}

impl ComparisonError {
    /// The explanation of the refusal.
    pub fn message(&self) -> (m: &'static str)
        ensures
            m@ == match self {
                ComparisonError::InsufficientCompletedObservations => "both cohorts must have the minimum completed observation count"@,
                ComparisonError::InvalidCounts => "cohort counts are internally inconsistent"@,
            },
    {
        match self {
            ComparisonError::InsufficientCompletedObservations => "both cohorts must have the minimum completed observation count",
            ComparisonError::InvalidCounts => "cohort counts are internally inconsistent",
        }
    }
}

/// Successes never exceed completions, and neither completions nor missing
/// observations exceed the sample.
pub open spec fn counts_consistent(input: CohortInput) -> bool {
    input.successful_observations <= input.completed_observations && input.completed_observations
        <= input.sample_size && input.missing_observations <= input.sample_size
}

/// Checks one cohort's counts.
pub fn validate(input: CohortInput) -> (r: Result<(), ComparisonError>)
    ensures
        r is Ok <==> counts_consistent(input),
        r is Err ==> r == Err::<(), ComparisonError>(ComparisonError::InvalidCounts),
{
    if input.successful_observations > input.completed_observations || input.completed_observations
        > input.sample_size || input.missing_observations > input.sample_size {
        Err(ComparisonError::InvalidCounts)
    } else {
        Ok(())
    }
}

/// Admits two cohorts: the baseline's counts, then the candidate's, then
/// both must have at least `minimum_completed` completed observations.
pub fn check_cohorts(baseline: CohortInput, candidate: CohortInput, minimum_completed: u64) -> (r: Result<
    (),
    ComparisonError,
>)
    ensures
        !(counts_consistent(baseline) && counts_consistent(candidate)) ==> r == Err::<(), ComparisonError>(
            ComparisonError::InvalidCounts,
        ),
        counts_consistent(baseline) && counts_consistent(candidate) ==> (if baseline.completed_observations
            < minimum_completed || candidate.completed_observations < minimum_completed {
            r == Err::<(), ComparisonError>(ComparisonError::InsufficientCompletedObservations)
        } else {
            r is Ok
        }),
{
    validate(baseline)?;
    validate(candidate)?;
    if baseline.completed_observations < minimum_completed || candidate.completed_observations
        < minimum_completed {
        return Err(ComparisonError::InsufficientCompletedObservations);
    }
    Ok(())
}

/// A comparison warns when either cohort has fewer completed observations
/// than the small-sample threshold.
pub fn small_sample_warning(baseline: CohortInput, candidate: CohortInput, threshold: u64) -> (w: bool)
    ensures
        w == (baseline.completed_observations < threshold || candidate.completed_observations < threshold),
{
    baseline.completed_observations < threshold || candidate.completed_observations < threshold
}

} // verus!
