//! Runs an ordered list of named analysis passes over one artifact value,
//! skipping the passes that a configuration ignores and reporting each step.

mod config;
mod laws;
mod pass;
mod report;

pub use config::Config;
pub use laws::{
    executed_of, lemma_decision_is_per_pass, lemma_ignore_toggle, lemma_run_events_parts,
    lemma_runs_repeat, lemma_same_name_same_fate, lemma_trace_has_one_line_per_pass,
    lemma_unignored_passes_run_once_in_order, trace_of,
};
pub use pass::{
    events_of, executions_in, lines_in, pass_events, pass_sequence, run_events, step_line,
    Event, Executable, Pass, PassSequence, Record, Sink, TraceBuffer,
};
pub use report::{
    indent_line, indent_text, info_line, info_text, line_text, na_line, spaces, Line, LineModel,
    INFO_INDENT,
};
