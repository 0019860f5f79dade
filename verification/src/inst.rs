//! Instructions of the stack machine, and the assembly they are emitted to.

use crate::span::{SourceId, Span};
use vstd::prelude::*;

verus! {

/// One operation of the stack machine.
#[derive(Clone, Copy, Debug, PartialEq, Eq, Structural)]
pub enum Inst {
    /// Push the unit value.
    Unit,
    /// Push the number held in a static slot.
    Number { slot: usize },
    /// Push the string held in a static slot.
    String { slot: usize },
    /// Push the byte string held in a static slot.
    Bytes { slot: usize },
    /// Push a copy of the local variable at `offset` in the frame.
    Copy { offset: usize },
    /// Pop `args` arguments, call the function at position `function` of the
    /// function table, and push what it returns.
    Call { function: usize, args: usize },
    /// Pop the top of the stack and drop it.
    Pop,
    /// Pop the top of the stack and return it to the caller.
    Return,
}

impl Inst {
    /// The number of values the instruction pushes, less the number it pops.
    pub open spec fn stack_effect(self) -> int {
        match self {
            Inst::Unit => 1,
            Inst::Number { .. } => 1,
            Inst::String { .. } => 1,
            Inst::Bytes { .. } => 1,
            Inst::Copy { .. } => 1,
            Inst::Call { args, .. } => 1 - args,
            Inst::Pop => -1,
            Inst::Return => -1,
        }
    }
}

/// An instruction together with the source text it was emitted for.
#[derive(Clone, Copy, Debug, PartialEq, Eq, Structural)]
pub struct Located {
    /// The instruction.
    pub inst: Inst,
    /// The source it comes from.
    pub source_id: SourceId,
    /// The range of that source it comes from.
    pub span: Span,
}

/// The number of values that running `code` from start to end leaves on the
/// stack, less the number it takes from it.
pub open spec fn net_effect(code: Seq<Located>) -> int
    decreases code.len(),
{
    if code.len() == 0 {
        0
    } else {
        net_effect(code.drop_last()) + code.last().inst.stack_effect()
    }
}

/// The net effect of two pieces of code run one after the other is the sum
/// of their net effects.
pub proof fn lemma_net_effect_concat(a: Seq<Located>, b: Seq<Located>)
    ensures
        net_effect(a + b) == net_effect(a) + net_effect(b),
    decreases b.len(),
{
    if b.len() == 0 {
        assert(a + b =~= a);
    } else {
        assert((a + b).drop_last() =~= a + b.drop_last());
        assert((a + b).last() == b.last());
        lemma_net_effect_concat(a, b.drop_last());
    }
}

/// Appending one instruction adds its stack effect to the net effect.
pub proof fn lemma_net_effect_push(code: Seq<Located>, last: Located)
    ensures
        net_effect(code.push(last)) == net_effect(code) + last.inst.stack_effect(),
{
    assert(code.push(last).drop_last() =~= code);
}

/// `before` is how `after` begins.
pub open spec fn extends<A>(after: Seq<A>, before: Seq<A>) -> bool {
    before.len() <= after.len() && forall|i: int|
        0 <= i < before.len() ==> #[trigger] after[i] == before[i]
}

/// What was appended to `before` to give `after`.
pub open spec fn appended<A>(after: Seq<A>, before: Seq<A>) -> Seq<A> {
    after.skip(before.len() as int)
}

/// Extending is transitive, and the appended parts follow each other.
pub proof fn lemma_extends_trans<A>(c: Seq<A>, b: Seq<A>, a: Seq<A>)
    requires
        extends(c, b),
        extends(b, a),
    ensures
        extends(c, a),
        appended(c, a) == appended(b, a) + appended(c, b),
{
    assert(appended(c, a) =~= appended(b, a) + appended(c, b));
}

/// The instructions of one function while it is assembled, in program
/// order. Instructions are only appended.
pub struct Assembly {
    /// The source that the function comes from.
    pub source_id: SourceId,
    /// The instructions emitted so far.
    pub instructions: Vec<Located>,
}

impl Assembly {
    /// An empty assembly for a function of the source `source_id`.
    pub fn new(source_id: SourceId) -> (assembly: Assembly)
        ensures
            assembly.source_id == source_id,
            assembly.instructions@ == Seq::<Located>::empty(),
    {
        Assembly { source_id, instructions: Vec::new() }
    }

    /// The number of instructions emitted so far.
    pub fn len(&self) -> (n: usize)
        ensures
            n == self.instructions@.len(),
    {
        self.instructions.len()
    }

    /// Appends `inst`, emitted for the text at `span`.
    pub fn push(&mut self, inst: Inst, span: Span)
        ensures
            final(self).source_id == old(self).source_id,
            final(self).instructions@ == old(self).instructions@.push(
                Located { inst, source_id: old(self).source_id, span },
            ),
    {
        let source_id = self.source_id;
        self.instructions.push(Located { inst, source_id, span });
    }
}

/// What assembling a construct left behind.
#[derive(Clone, Copy, Debug, PartialEq, Eq, Structural)]
pub struct Asm {
    /// The range of source text that was assembled.
    pub span: Span,
    /// Whether the construct left its value on top of the stack.
    pub pushed: bool,
}

impl Asm {
    /// The construct at `span` left its value on top of the stack.
    pub fn top(span: Span) -> (out: Asm)
        ensures
            out == (Asm { span, pushed: true }),
    {
        Asm { span, pushed: true }
    }

    /// The construct at `span` left nothing on the stack.
    pub fn empty(span: Span) -> (out: Asm)
        ensures
            out == (Asm { span, pushed: false }),
    {
        Asm { span, pushed: false }
    }
}

} // verus!
