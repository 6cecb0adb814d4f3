//! Optimization of harness candidates: the decisions of the optimizer, the rules of the bundled
//! projects and the reports they produce.
//!
//! The library decides and computes; it neither reads nor writes files, asks models or waits.
//! Where outside work and decisions alternate, a type of the library takes what came of the last
//! action and says which comes next: [`optimizer::HarnessOptimization`] for a run,
//! [`evaluation::CachedEvaluation`] for the evaluation of a candidate, and
//! [`obliq_evaluation::ObliqEvaluation`] for one evaluation by the retrieval agent.

pub mod calendar;
pub mod commands;
pub mod engine;
pub mod evaluation;
pub mod evaluation_cache;
pub mod feedback;
pub mod fingerprint;
pub mod gepa_summary;
pub mod json;
pub mod laws;
pub mod model;
pub mod obliq;
pub mod obliq_evaluation;
pub mod optimizer;
pub mod pareto;
pub mod proposer;
pub mod score;
pub mod state;
pub mod strategies;
pub mod string_map;
pub mod synthetic_task;
pub mod text;
pub mod views;

pub use engine::{
    apply_patch, apply_proposal, select_batch, validate_component_value, validate_patch_scope,
    HarnessOptimizer, ProjectHarnessRunner,
};
pub use fingerprint::{candidate_fingerprint, evaluation_cache_key};
pub use json::Json;
pub use model::{
    Candidate, CandidateEvaluation, CandidateProposal, CandidateRecord, CandidateSelection,
    ComponentConstraints, ComponentPatch, ComponentSelection, ComponentValue, EvaluationRecord,
    EvaluationResult, EvidenceBatch, ExampleRun, FrontierMode, GenerationReport, HarnessExample,
    HarnessOptError, MutableComponent, OptimizationConfig, OptimizationRun, OptimizationState,
    ProposalRecord, RunArtifacts, Split, StoreStats, StrategyRequest, TraceBundle, TraceContext,
    TraceEvent, TraceRecord,
};
pub use pareto::{complementary_pair, merge_candidates, select_pareto_parent};
pub use score::Score;
pub use string_map::StringMap;
