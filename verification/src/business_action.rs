//! A business action and the traces that carried it out.
use vstd::prelude::*;
use crate::text::owned;

verus! {

/// The traces of one business action; more than one success is flagged.
#[derive(Debug, Clone, PartialEq, Eq)]
pub struct BusinessActionDetail {
    pub business_action_id: String,
    pub name: Option<String>,
    pub trace_ids: Vec<String>,
    pub successful_traces: usize,
    pub multiple_success_warning: bool,
}

/// Builds the detail of a business action; it warns when more than one trace
/// succeeded, which may mean the action ran twice.
pub fn build_business_action_detail(
    id: &str,
    name: Option<String>,
    trace_ids: Vec<String>,
    successful_traces: usize,
) -> (d: BusinessActionDetail)
    ensures
        d.business_action_id@ == id@,
        d.name == name,
        d.trace_ids == trace_ids,
        d.successful_traces == successful_traces,
        d.multiple_success_warning == (successful_traces > 1),
{
    BusinessActionDetail {
        business_action_id: owned(id),
        name,
        trace_ids,
        successful_traces,
        multiple_success_warning: successful_traces > 1,
    }
}

} // verus!
