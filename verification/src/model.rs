//! The data the pipeline moves: one job posting as parsed from a fetch
//! response, and a batch of newly seen postings grouped under one location.

use vstd::prelude::*;

verus! {

/// One job posting. Pay rates are held in whole cents per hour, so that the
/// record carries plain integers end to end.
#[derive(Debug)]
pub struct JobInfo {
    pub id: String,
    pub title: String,
    pub location: String,
    pub job_type: String,
    pub pay_min_cents: u64,
    pub pay_max_cents: u64,
    pub shift: i64,
}

impl JobInfo {
    /// An exact copy of the record.
    pub fn duplicate(&self) -> (j: JobInfo)
        ensures
            j == *self,
    {
        JobInfo {
            id: self.id.clone(),
            title: self.title.clone(),
            location: self.location.clone(),
            job_type: self.job_type.clone(),
            pay_min_cents: self.pay_min_cents,
            pay_max_cents: self.pay_max_cents,
            shift: self.shift,
        }
    }
}

/// The jobs newly seen in one fetch that share one location, in fetch-response
/// order. Consumed exactly once by the notification consumer.
#[derive(Debug)]
pub struct NotificationBatch {
    pub location: String,
    pub jobs: Vec<JobInfo>,
}

} // verus!
