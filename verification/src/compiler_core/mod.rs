//! Compilation orchestration: phases and tiers, the compiler entry point,
//! failure handling, watch dogs, printers and compiler threads.
pub mod compilation_printer;
pub mod compilation_watch_dog;
pub mod compilation_wrapper;
pub mod compiler_thread;
pub mod compiler_thread_factory;
pub mod graal_compiler;
pub mod graal_compiler_options;
pub mod lir_generation_phase;
pub mod phases;
pub mod laws;
