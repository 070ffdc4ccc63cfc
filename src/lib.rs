//! Planning and bookkeeping of a concurrent batch download: the concurrency
//! cap and the groups of a batch, the file number and file name of each task,
//! the step-by-step decisions of the batch, the aggregation of the outcomes of
//! a group and the progress record of one download.
pub mod coordinator;
pub mod naming;
pub mod outcome;
pub mod plan;
pub mod progress;
