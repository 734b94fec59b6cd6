/// The per-file scan outcome record and the engine configuration.
pub mod detection;
/// Extension filtering, one-shot job planning, summary counters, and the
/// mapping from filesystem events to watch actions.
pub mod dispatch;
/// The matching engine: rule-set loading and per-file scan semantics.
pub mod engine;
/// The report sink: reporting policy, plain-text lines, and the accumulated
/// JSON document.
pub mod report;
/// String groundwork: suffixes, path extensions, case folding, decimal
/// rendering, and joining.
pub mod strutil;
