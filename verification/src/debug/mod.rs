//! Debugging support: assertions, CSV output, counters, timers and memory
//! trackers, filters, indentation, scopes and the debug context.
pub mod assertions;
pub mod csv_util;
pub mod debug_counter;
pub mod debug_mem_use_tracker;
pub mod debug_timer;
pub mod key_registry;
pub mod mem_use_tracker_key;
pub mod debug_options;
pub mod debug_closeable;


pub mod java_method_context;
pub mod indent;
pub mod diagnostics_output_directory;
pub mod graal_error;
pub mod scope;
pub mod debug_method_metrics;
pub mod counter_key;
pub mod debug_dump_handler;
pub mod log_stream;
pub mod debug_config;
pub mod debug_filter;
pub mod debug_handler;
pub mod debug_context;
pub mod laws;
