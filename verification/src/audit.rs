//! Audit entries: who asked for what on a job group.

use vstd::prelude::*;

use crate::messages::{JobGroupAudit, JobGroupOperation, JobGroupSpec};

verus! {

/// Records that `msg` had the job group `group_id` created.
pub open spec fn creation_entry(group_id: u64, msg: JobGroupSpec) -> JobGroupAudit {
    JobGroupAudit {
        group_id,
        operation: JobGroupOperation::JobGroupOpCreate,
        trigger: msg.trigger,
        requester_id: msg.requester_id,
        requester_name: msg.requester_name,
    }
}

/// The entry that records the creation of a job group. Whether it can be stored has no bearing
/// on the request.
pub fn add_job_group_audit_entry(group_id: u64, msg: &JobGroupSpec) -> (entry: JobGroupAudit)
    ensures
        entry == creation_entry(group_id, *msg),
{
    JobGroupAudit {
        group_id,
        operation: JobGroupOperation::JobGroupOpCreate,
        trigger: msg.trigger,
        requester_id: msg.requester_id,
        requester_name: msg.requester_name.clone(),
    }
}

} // verus!
