use vstd::prelude::*;

verus! {

/// One generation request that the remote service has taken on.
pub struct Job {
    /// The name that the remote service gave the request.
    pub id: String,
    pub user_id: i64,
    pub prompt: String,
    /// Edge length of the images asked for, in pixels.
    pub size: u32,
}

/// What one worker has contributed to a job.
pub struct WorkerResult {
    pub worker_name: String,
    /// The image, in base64.
    pub image_base64: String,
}

/// The workers of `results`, in order, each as often as it occurs.
pub open spec fn worker_names(results: Seq<WorkerResult>) -> Seq<Seq<char>> {
    Seq::new(results.len(), |i: int| results[i].worker_name@)
}

/// The payloads of `results`, in order.
pub open spec fn payloads(results: Seq<WorkerResult>) -> Seq<Seq<char>> {
    Seq::new(results.len(), |i: int| results[i].image_base64@)
}

} // verus!
