//! The phase that lowers the high-level graph to low-level instructions.
use vstd::prelude::*;
use crate::text::owned;

verus! {

/// What the instruction generation works on: the graph and its node count.
#[derive(Debug)]
pub struct LIRGenerationContext {
    /// The name of the graph being compiled.
    pub graph_name: String,
    /// The number of nodes in the graph.
    pub node_count: usize,
}

impl Clone for LIRGenerationContext {
    fn clone(&self) -> (r: Self)
        ensures
            r == *self,
    {
        LIRGenerationContext { graph_name: self.graph_name.clone(), node_count: self.node_count }
    }
}

impl LIRGenerationContext {
    /// A context for the named graph with the given node count.
    pub fn new(graph_name: &str, node_count: usize) -> (r: Self)
        ensures
            r.graph_name@ == graph_name@,
            r.node_count == node_count,
    {
        LIRGenerationContext { graph_name: owned(graph_name), node_count }
    }
}

/// Lowers the graph block by block: each block is first matched, then emitted.
#[derive(Debug, Clone, Copy)]
pub struct LIRGenerationPhase {
    /// The number of instructions generated.
    pub instruction_count: u64,
    /// The node count after generation.
    pub final_node_count: u64,
}

impl Default for LIRGenerationPhase {
    fn default() -> (r: Self)
        ensures
            r.instruction_count == 0,
            r.final_node_count == 0,
    {
        Self::new()
    }
}

impl LIRGenerationPhase {
    /// A phase that has generated nothing yet.
    pub fn new() -> (r: Self)
        ensures
            r.instruction_count == 0,
            r.final_node_count == 0,
    {
        LIRGenerationPhase { instruction_count: 0, final_node_count: 0 }
    }

    /// Runs the phase over `block_count` blocks: matches every block, then
    /// emits every block; one instruction is counted per block and the
    /// context's node count is kept.
    pub fn run(&mut self, context: &LIRGenerationContext, block_count: usize)
        ensures
            final(self).instruction_count == block_count,
            final(self).final_node_count == context.node_count,
    {
        let mut b: usize = 0;
        while b < block_count
            decreases block_count - b,
        {
            self.match_block(b, context);
            b = b + 1;
        }
        let mut b: usize = 0;
        while b < block_count
            decreases block_count - b,
        {
            self.emit_block(b, context);
            b = b + 1;
        }
        self.instruction_count = block_count as u64;
        self.final_node_count = context.node_count as u64;
    }

    /// Matches the nodes of one block to instructions.
    fn match_block(&self, block_index: usize, context: &LIRGenerationContext) {
    }

    /// Emits the instructions of one block.
    fn emit_block(&self, block_index: usize, context: &LIRGenerationContext) {
    }
}

} // verus!
