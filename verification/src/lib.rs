//! Verified core of a self-rewriting evolutionary process: a genome store
//! with bounded backups, an extensible mutation-strategy registry, the
//! mutate-validate-integrate pipeline, knowledge extraction and splicing,
//! and a storage governor that plans oldest-first eviction.
//!
//! All file, process and network activity stays outside this crate; the
//! library computes decisions, texts and plans, and proves exactly what each
//! step does.

pub mod kern;
pub mod knowledge;
pub mod names;
mod rng;
pub mod storage;
pub mod strategy;
pub mod text;

pub use kern::EnhancedEvoliKern;
pub use kern::MAX_STORAGE_BYTES;
pub use storage::ManagedFile;
pub use storage::StoragePlan;
pub use strategy::FitnessEvaluator;
pub use strategy::MutationStrategy;
pub use strategy::RuntimeMetrics;
