//! Requests for job groups.

use vstd::prelude::*;

use crate::error::Error;
use crate::messages::{JobGroup, JobGroupOriginResponse};

verus! {

/// Answers a request for the job groups of an origin from what the datastore has to say of them.
pub fn job_group_origin_get(found: Result<JobGroupOriginResponse, Error>) -> (reply: Result<
    JobGroupOriginResponse,
    Error,
>)
    ensures
        reply == match found {
            Ok(groups) => Ok::<JobGroupOriginResponse, Error>(groups),
            Err(_) => Err(Error::System),
        },
{
    match found {
        Ok(groups) => Ok(groups),
        Err(_) => Err(Error::System),
    }
}

/// Answers a request for a job group from what the datastore has to say of it. A failure of the
/// datastore is answered as if there were no such group.
pub fn job_group_get(found: Result<Option<JobGroup>, Error>) -> (reply: Result<JobGroup, Error>)
    ensures
        reply == match found {
            Ok(Some(group)) => Ok::<JobGroup, Error>(group),
            _ => Err(Error::NotFound),
        },
{
    let group_opt = match found {
        Ok(group_opt) => group_opt,
        Err(_) => None,
    };
    match group_opt {
        Some(group) => Ok(group),
        None => Err(Error::NotFound),
    }
}

} // verus!
