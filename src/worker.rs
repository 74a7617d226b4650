use vstd::prelude::*;

verus! {

/// What a preparation worker process is started with.
#[derive(Debug, Clone)]
pub struct ValidationWorkerCommand {
    /// The path to the validation host's socket.
    pub socket_path: String,
    /// The path to the worker-specific temporary directory.
    pub worker_dir_path: String,
    /// The version of the calling node implementation.
    pub node_impl_version: String,
}

} // verus!
