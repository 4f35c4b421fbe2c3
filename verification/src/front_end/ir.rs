use vstd::prelude::*;

verus! {

/// One stack-machine operation.
#[allow(non_camel_case_types)]
#[derive(Debug, Clone, Copy, PartialEq, Eq)]
pub enum IR {
    OP_ADD,
    OP_SUB,
    OP_MUL,
    OP_DIV,
}

/// An append-only list of stack-machine operations.
pub struct Chunk {
    pub ops: Vec<IR>,
}

impl Chunk {
    /// Appends `ir` after the operations already held.
    pub fn add(&mut self, ir: IR)
        ensures
            final(self).ops@ == old(self).ops@.push(ir),
    {
        self.ops.push(ir)
    }

    /// An empty chunk.
    pub fn new() -> (chunk: Chunk)
        ensures
            chunk.ops@ == Seq::<IR>::empty(),
    {
        Chunk { ops: Vec::new() }
    }
}

} // verus!
