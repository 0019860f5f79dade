//! The unit builder, and the immutable unit it is frozen into.
//!
//! The builder collects, during code generation, the static pool, the
//! function table and the instruction stream. `link` reports what does not
//! resolve or is never used; `build` checks the whole once more and freezes
//! it.

use crate::bytes::{
    bytes_eq, find_name, first_index, lemma_first_index_absent, lemma_first_index_found,
    lemma_first_index_sound,
};
use crate::context::{default_name_list, default_names, has_name, Context};
use crate::diagnostics::{
    BuildError, CompileError, Detail, Diagnostic, DiagnosticKind, Diagnostics, Severity,
};
use crate::inst::{Assembly, Inst, Located};
use crate::span::{Site, Span};
use vstd::prelude::*;
use vstd::slice::slice_to_vec;

verus! {

/// The name of the entry function, `main`.
pub open spec fn entry_name() -> Seq<u8> {
    seq![109u8, 97u8, 105u8, 110u8]
}

/// The name of the entry function, as bytes.
pub fn entry_name_bytes() -> (name: Vec<u8>)
    ensures
        name@ == entry_name(),
{
    let name: Vec<u8> = vec![109u8, 97u8, 105u8, 110u8];
    assert(name@ =~= entry_name());
    name
}

/// A constant of the static pool.
#[derive(Debug, PartialEq, Eq)]
pub enum StaticData {
    /// An integer.
    Number(i64),
    /// The bytes of a string.
    String(Vec<u8>),
    /// A byte string.
    Bytes(Vec<u8>),
}

/// What a constant of the static pool is, to specifications.
pub enum StaticValue {
    /// An integer.
    Number(i64),
    /// The bytes of a string.
    String(Seq<u8>),
    /// A byte string.
    Bytes(Seq<u8>),
}

impl View for StaticData {
    type V = StaticValue;

    open spec fn view(&self) -> StaticValue {
        match self {
            StaticData::Number(n) => StaticValue::Number(*n),
            StaticData::String(s) => StaticValue::String(s@),
            StaticData::Bytes(b) => StaticValue::Bytes(b@),
        }
    }
}

/// One slot of the static pool: a constant, and the text it was first
/// written as.
#[derive(Debug, PartialEq, Eq)]
pub struct StaticEntry {
    /// The constant.
    pub data: StaticData,
    /// The literal that made the slot.
    pub span: Span,
}

/// What a slot of the static pool is, to specifications.
pub struct StaticModel {
    /// The constant.
    pub value: StaticValue,
    /// The literal that made the slot.
    pub span: Span,
}

impl View for StaticEntry {
    type V = StaticModel;

    open spec fn view(&self) -> StaticModel {
        StaticModel { value: self.data@, span: self.span }
    }
}

/// Where the code of a function lies, and what it needs to run.
#[derive(Clone, Copy, Debug, PartialEq, Eq, Structural)]
pub struct FunctionDef {
    /// The number of arguments.
    pub args: usize,
    /// The position of its first instruction in the stream.
    pub offset: usize,
    /// The number of local variables in its frame.
    pub frame: usize,
    /// Where it is defined.
    pub site: Site,
}

/// What is known of a function of the table.
#[derive(Clone, Copy, Debug, PartialEq, Eq, Structural)]
pub enum FunctionState {
    /// It is called, first at `first`, and not defined by the unit.
    Referenced { first: Site },
    /// It is defined by the unit; `called` tells whether anything calls it.
    Defined { def: FunctionDef, called: bool },
}

impl FunctionState {
    /// The state after one more call of the function.
    pub open spec fn after_call(self) -> FunctionState {
        match self {
            FunctionState::Referenced { first } => FunctionState::Referenced { first },
            FunctionState::Defined { def, .. } => FunctionState::Defined { def, called: true },
        }
    }
}

/// An entry of the function table.
#[derive(Debug, PartialEq, Eq)]
pub struct FunctionEntry {
    /// The name that calls use.
    pub name: Vec<u8>,
    /// What is known of the function.
    pub state: FunctionState,
}

/// What an entry of the function table is, to specifications.
pub struct FunctionModel {
    /// The name that calls use.
    pub name: Seq<u8>,
    /// What is known of the function.
    pub state: FunctionState,
}

impl View for FunctionEntry {
    type V = FunctionModel;

    open spec fn view(&self) -> FunctionModel {
        FunctionModel { name: self.name@, state: self.state }
    }
}

/// What a unit builder holds, to specifications.
pub struct UnitModel {
    /// The names that calls may leave to the host to provide.
    pub prelude: Seq<Seq<u8>>,
    /// The instruction stream, in program order.
    pub instructions: Seq<Located>,
    /// The static pool, by slot.
    pub pool: Seq<StaticModel>,
    /// The function table, by position.
    pub functions: Seq<FunctionModel>,
}

impl UnitModel {
    /// The static pool and the function table are no longer than a machine
    /// can hold, so that slots and positions are what they are counted to
    /// be.
    pub open spec fn fits(self) -> bool {
        self.pool.len() <= usize::MAX && self.functions.len() <= usize::MAX
    }

    /// Whether every instruction of the stream refers only to what the unit
    /// holds.
    pub open spec fn resolved(self) -> bool {
        forall|i: int|
            0 <= i < self.instructions.len() ==> self.inst_resolves(
                (#[trigger] self.instructions[i]).inst,
            )
    }

    /// The names of the function table, by position.
    pub open spec fn names(self) -> Seq<Seq<u8>> {
        self.functions.map_values(|f: FunctionModel| f.name)
    }

    /// The position of the function called `name`, if the table has it.
    pub open spec fn lookup(self, name: Seq<u8>) -> Option<int> {
        first_index(self.names(), name)
    }

    /// The position that the function called `name` has, or will get when it
    /// is added next.
    pub open spec fn position(self, name: Seq<u8>) -> int {
        match self.lookup(name) {
            Some(i) => i,
            None => self.functions.len() as int,
        }
    }

    /// Whether the unit defines a function called `name`.
    pub open spec fn defines(self, name: Seq<u8>) -> bool {
        self.lookup(name) matches Some(i) && self.functions[i].state is Defined
    }

    /// The unit with one more slot in its pool, holding `value`.
    pub open spec fn with_static(self, value: StaticValue, span: Span) -> UnitModel {
        UnitModel { pool: self.pool.push(StaticModel { value, span }), ..self }
    }

    /// The unit after a call of `name` at `site`: a known function is marked
    /// as called, an unknown one enters the table as referenced.
    pub open spec fn with_reference(self, name: Seq<u8>, site: Site) -> UnitModel {
        match self.lookup(name) {
            Some(i) => UnitModel {
                functions: self.functions.update(
                    i,
                    FunctionModel { name: self.functions[i].name, state: self.functions[i].state.after_call() },
                ),
                ..self
            },
            None => UnitModel {
                functions: self.functions.push(
                    FunctionModel { name, state: FunctionState::Referenced { first: site } },
                ),
                ..self
            },
        }
    }

    /// The unit after `name` was defined at `site` with `args` parameters
    /// and `code` as its body: the code ends the stream, and the function
    /// takes the position that earlier calls gave it, or the next free one.
    pub open spec fn with_function(
        self,
        name: Seq<u8>,
        args: usize,
        code: Seq<Located>,
        site: Site,
    ) -> UnitModel {
        let def = FunctionDef { args, offset: self.instructions.len() as usize, frame: args, site };
        UnitModel {
            instructions: self.instructions + code,
            functions: match self.lookup(name) {
                Some(i) => self.functions.update(
                    i,
                    FunctionModel {
                        name: self.functions[i].name,
                        state: FunctionState::Defined { def, called: true },
                    },
                ),
                None => self.functions.push(
                    FunctionModel { name, state: FunctionState::Defined { def, called: false } },
                ),
            },
            ..self
        }
    }

    /// What `link` reports of the function at position `i`: a called
    /// function that nothing defines is fatal, unless the prelude names it
    /// and the host provides it; a defined function that nothing calls is
    /// worth a warning, unless it is the entry function.
    pub open spec fn link_event(self, natives: Seq<Seq<u8>>, i: int) -> Option<Diagnostic> {
        let function = self.functions[i];
        match function.state {
            FunctionState::Referenced { first } => if has_name(self.prelude, function.name)
                && has_name(natives, function.name) {
                None
            } else {
                Some(
                    Diagnostic {
                        source_id: first.source_id,
                        span: first.span,
                        severity: Severity::Error,
                        kind: DiagnosticKind::MissingFunction,
                        detail: Detail::Function(i as usize),
                    },
                )
            },
            FunctionState::Defined { def, called } => if called || function.name == entry_name() {
                None
            } else {
                Some(
                    Diagnostic {
                        source_id: def.site.source_id,
                        span: def.site.span,
                        severity: Severity::Warning,
                        kind: DiagnosticKind::UnusedFunction,
                        detail: Detail::Function(i as usize),
                    },
                )
            },
        }
    }

    /// What `link` reports of the first `n` functions, in table order.
    pub open spec fn link_events(self, natives: Seq<Seq<u8>>, n: int) -> Seq<Diagnostic>
        decreases n,
    {
        if n <= 0 {
            Seq::empty()
        } else {
            match self.link_event(natives, n - 1) {
                Some(event) => self.link_events(natives, n - 1).push(event),
                None => self.link_events(natives, n - 1),
            }
        }
    }

    /// Whether the function at position `i` can be called when the unit
    /// runs: the unit defines it, or the prelude leaves it to the host.
    pub open spec fn function_resolves(self, i: int) -> bool {
        self.functions[i].state is Defined || has_name(self.prelude, self.functions[i].name)
    }

    /// Whether what `inst` refers to exists: its static slot holds a
    /// constant of the kind it pushes, its callee is in the function table.
    pub open spec fn inst_resolves(self, inst: Inst) -> bool {
        match inst {
            Inst::Number { slot } => slot < self.pool.len() && self.pool[slot as int].value is Number,
            Inst::String { slot } => slot < self.pool.len() && self.pool[slot as int].value is String,
            Inst::Bytes { slot } => slot < self.pool.len() && self.pool[slot as int].value is Bytes,
            Inst::Call { function, .. } => function < self.functions.len(),
            _ => true,
        }
    }

    /// For each function of the table, whether it resolves.
    pub open spec fn resolved_functions(self) -> Seq<bool> {
        Seq::new(self.functions.len(), |i: int| self.function_resolves(i))
    }

    /// For each instruction of the stream, whether it resolves.
    pub open spec fn resolved_instructions(self) -> Seq<bool> {
        Seq::new(self.instructions.len(), |i: int| self.inst_resolves(self.instructions[i].inst))
    }

    /// Why the unit cannot be frozen, if it cannot: it lacks the entry
    /// function; else the first function that does not resolve; else the
    /// first instruction that does not resolve.
    pub open spec fn build_error(self) -> Option<BuildError> {
        if !self.defines(entry_name()) {
            Some(BuildError::MissingEntry)
        } else if let Some(i) = first_index(self.resolved_functions(), false) {
            Some(
                BuildError::MissingFunction {
                    function: i as usize,
                    site: self.functions[i].state->first,
                },
            )
        } else if let Some(i) = first_index(self.resolved_instructions(), false) {
            let at = self.instructions[i];
            let site = Site { source_id: at.source_id, span: at.span };
            if at.inst is Call {
                Some(BuildError::BadCall { instruction: i as usize, site })
            } else {
                Some(BuildError::MissingSlot { instruction: i as usize, site })
            }
        } else {
            None
        }
    }

    /// The unit that the builder freezes into.
    pub open spec fn frozen(self) -> UnitView {
        UnitView {
            instructions: self.instructions,
            pool: self.pool,
            functions: self.functions,
            entry: self.position(entry_name()),
        }
    }
}

/// The static slot that the instruction pushes, if it pushes one.
pub open spec fn slot_of(inst: Inst) -> Option<usize> {
    match inst {
        Inst::Number { slot } => Some(slot),
        Inst::String { slot } => Some(slot),
        Inst::Bytes { slot } => Some(slot),
        _ => None,
    }
}

/// What a unit holds, to specifications.
pub struct UnitView {
    /// The instruction stream, in program order.
    pub instructions: Seq<Located>,
    /// The static pool, by slot.
    pub pool: Seq<StaticModel>,
    /// The function table, by position. A function that is only referenced
    /// is left to the host.
    pub functions: Seq<FunctionModel>,
    /// The position of the entry function in the table.
    pub entry: int,
}

impl UnitView {
    /// Whether the instruction refers only to what the unit holds.
    pub open spec fn inst_resolves(self, inst: Inst) -> bool {
        match inst {
            Inst::Number { slot } => slot < self.pool.len() && self.pool[slot as int].value is Number,
            Inst::String { slot } => slot < self.pool.len() && self.pool[slot as int].value is String,
            Inst::Bytes { slot } => slot < self.pool.len() && self.pool[slot as int].value is Bytes,
            Inst::Call { function, .. } => function < self.functions.len(),
            _ => true,
        }
    }

    /// Every static slot and every function that an instruction of the unit
    /// refers to exists in the unit, and the entry function is defined.
    pub open spec fn sound(self) -> bool {
        &&& forall|i: int|
            0 <= i < self.instructions.len() ==> self.inst_resolves(
                (#[trigger] self.instructions[i]).inst,
            )
        &&& 0 <= self.entry < self.functions.len()
        &&& self.functions[self.entry].state is Defined
        &&& self.functions[self.entry].name == entry_name()
    }
}

/// The mutable, in-progress unit.
pub struct UnitBuilder {
    prelude: Vec<Vec<u8>>,
    instructions: Vec<Located>,
    pool: Vec<StaticEntry>,
    functions: Vec<FunctionEntry>,
}

impl View for UnitBuilder {
    type V = UnitModel;

    closed spec fn view(&self) -> UnitModel {
        UnitModel {
            prelude: self.prelude@.map_values(|n: Vec<u8>| n@),
            instructions: self.instructions@,
            pool: self.pool@.map_values(|e: StaticEntry| e@),
            functions: self.functions@.map_values(|f: FunctionEntry| f@),
        }
    }
}

impl Default for UnitBuilder {
    /// An empty builder with an empty prelude.
    fn default() -> (builder: UnitBuilder)
        ensures
            builder@ == (UnitModel {
                prelude: Seq::empty(),
                instructions: Seq::empty(),
                pool: Seq::empty(),
                functions: Seq::empty(),
            }),
    {
        let builder = UnitBuilder {
            prelude: Vec::new(),
            instructions: Vec::new(),
            pool: Vec::new(),
            functions: Vec::new(),
        };
        assert(builder@.prelude =~= Seq::empty());
        assert(builder@.pool =~= Seq::empty());
        assert(builder@.functions =~= Seq::empty());
        builder
    }
}

impl UnitBuilder {
    /// What a builder holds fits the machine.
    pub proof fn lemma_fits(&self)
        ensures
            self@.fits(),
    {
        assert(self@.pool.len() == self.pool.len());
        assert(self@.functions.len() == self.functions.len());
    }

    /// An empty builder whose prelude holds the names of `default_names`.
    pub fn with_default_prelude() -> (builder: UnitBuilder)
        ensures
            builder@ == (UnitModel {
                prelude: default_names(),
                instructions: Seq::empty(),
                pool: Seq::empty(),
                functions: Seq::empty(),
            }),
    {
        let builder = UnitBuilder {
            prelude: default_name_list(),
            instructions: Vec::new(),
            pool: Vec::new(),
            functions: Vec::new(),
        };
        assert(builder@.pool =~= Seq::empty());
        assert(builder@.functions =~= Seq::empty());
        builder
    }

    /// The static pool, by slot.
    pub fn statics(&self) -> (pool: &Vec<StaticEntry>)
        ensures
            pool@.map_values(|e: StaticEntry| e@) == self@.pool,
    {
        &self.pool
    }

    /// The function table, by position.
    pub fn functions(&self) -> (table: &Vec<FunctionEntry>)
        ensures
            table@.map_values(|f: FunctionEntry| f@) == self@.functions,
    {
        &self.functions
    }

    /// The instruction stream, in program order.
    pub fn instructions(&self) -> (stream: &Vec<Located>)
        ensures
            stream@ == self@.instructions,
    {
        &self.instructions
    }

    /// Puts `entry` into a new slot of the pool and returns the slot.
    fn new_static(&mut self, entry: StaticEntry) -> (slot: usize)
        ensures
            slot == old(self)@.pool.len(),
            final(self)@ == old(self)@.with_static(entry@.value, entry@.span),
    {
        let slot = self.pool.len();
        self.pool.push(entry);
        assert(self@.pool =~= old(self)@.pool.push(entry@));
        slot
    }

    /// Puts the number `value`, written at `span`, into a new slot of the
    /// pool. Slots are given out in order and never reused.
    pub fn new_static_number(&mut self, span: Span, value: i64) -> (slot: usize)
        ensures
            slot == old(self)@.pool.len(),
            final(self)@ == old(self)@.with_static(StaticValue::Number(value), span),
    {
        self.new_static(StaticEntry { data: StaticData::Number(value), span })
    }

    /// Puts the string `data`, written at `span`, into a new slot of the
    /// pool. Slots are given out in order and never reused.
    pub fn new_static_string(&mut self, span: Span, data: &[u8]) -> (slot: usize)
        ensures
            slot == old(self)@.pool.len(),
            final(self)@ == old(self)@.with_static(StaticValue::String(data@), span),
    {
        self.new_static(StaticEntry { data: StaticData::String(slice_to_vec(data)), span })
    }

    /// Puts the byte string `data`, written at `span`, into a new slot of
    /// the pool. Slots are given out in order and never reused.
    pub fn new_static_bytes(&mut self, span: Span, data: &[u8]) -> (slot: usize)
        ensures
            slot == old(self)@.pool.len(),
            final(self)@ == old(self)@.with_static(StaticValue::Bytes(data@), span),
    {
        self.new_static(StaticEntry { data: StaticData::Bytes(slice_to_vec(data)), span })
    }

    /// The position of the function called `name`, if the table has it.
    pub fn find_function(&self, name: &[u8]) -> (found: Option<usize>)
        ensures
            found matches Some(i) ==> self@.lookup(name@) == Some(i as int) && i
                < self@.functions.len(),
            found is None ==> self@.lookup(name@) is None,
    {
        let mut i: usize = 0;
        while i < self.functions.len()
            invariant
                i <= self.functions.len(),
                forall|j: int| 0 <= j < i ==> self@.names()[j] != name@,
            decreases self.functions.len() - i,
        {
            if bytes_eq(self.functions[i].name.as_slice(), name) {
                proof {
                    lemma_first_index_found(self@.names(), name@, i as int);
                }
                return Some(i);
            }
            i += 1;
        }
        proof {
            lemma_first_index_absent(self@.names(), name@);
        }
        None
    }

    /// Records a call of the function `name` at `site`, and returns the
    /// position of the function in the table. A name that the table does not
    /// hold yet is added to it, to be defined later or left to the host.
    pub fn reference(&mut self, name: &[u8], site: Site) -> (position: usize)
        ensures
            position == old(self)@.position(name@),
            final(self)@ == old(self)@.with_reference(name@, site),
    {
        match self.find_function(name) {
            Some(i) => {
                let state = match self.functions[i].state {
                    FunctionState::Referenced { first } => FunctionState::Referenced { first },
                    FunctionState::Defined { def, .. } => FunctionState::Defined {
                        def,
                        called: true,
                    },
                };
                self.functions[i].state = state;
                assert(self@.functions =~= old(self)@.with_reference(name@, site).functions);
                i
            },
            None => {
                let position = self.functions.len();
                let entry = FunctionEntry {
                    name: slice_to_vec(name),
                    state: FunctionState::Referenced { first: site },
                };
                self.functions.push(entry);
                assert(self@.functions =~= old(self)@.with_reference(name@, site).functions);
                position
            },
        }
    }

    /// Defines the function `name` with `args` parameters: the instructions
    /// of `assembly` are appended to the stream, and the function enters the
    /// table, at the position that earlier calls gave it or at the next
    /// free one. Returns the position.
    ///
    /// Where the unit already defines `name`, nothing changes and the
    /// conflict is returned, at `span`.
    pub fn new_function(&mut self, name: &[u8], args: usize, assembly: Assembly, span: Span) -> (result:
        Result<usize, CompileError>)
        ensures
            match result {
                Ok(position) => {
                    &&& !old(self)@.defines(name@)
                    &&& position == old(self)@.position(name@)
                    &&& final(self)@ == old(self)@.with_function(
                        name@,
                        args,
                        assembly.instructions@,
                        Site { source_id: assembly.source_id, span },
                    )
                },
                Err(error) => {
                    &&& old(self)@.defines(name@)
                    &&& final(self)@ == old(self)@
                    &&& error == (CompileError { span, kind: DiagnosticKind::FunctionConflict })
                },
            },
    {
        let mut assembly = assembly;
        let site = Site { source_id: assembly.source_id, span };
        let def = FunctionDef { args, offset: self.instructions.len(), frame: args, site };
        let ghost expected = old(self)@.with_function(name@, args, assembly.instructions@, site);
        match self.find_function(name) {
            Some(i) => {
                if let FunctionState::Defined { .. } = self.functions[i].state {
                    return Err(CompileError { span, kind: DiagnosticKind::FunctionConflict });
                }
                self.functions[i].state = FunctionState::Defined { def, called: true };
                self.instructions.append(&mut assembly.instructions);
                assert(self@.functions =~= expected.functions);
                Ok(i)
            },
            None => {
                let position = self.functions.len();
                let entry = FunctionEntry {
                    name: slice_to_vec(name),
                    state: FunctionState::Defined { def, called: false },
                };
                self.functions.push(entry);
                self.instructions.append(&mut assembly.instructions);
                assert(self@.functions =~= expected.functions);
                Ok(position)
            },
        }
    }

    /// Validates the function table against the host: every function that
    /// is called and not defined must be named by the prelude and provided
    /// by `context`, else a fatal event is recorded at its first call; every
    /// function but the entry function that is defined and never called is
    /// worth a warning at its definition. Events are recorded in table
    /// order.
    pub fn link(&self, context: &Context, diagnostics: &mut Diagnostics)
        ensures
            final(diagnostics)@ == old(diagnostics)@ + self@.link_events(
                context@.functions,
                self@.functions.len() as int,
            ),
    {
        let entry = entry_name_bytes();
        let mut i: usize = 0;
        assert(old(diagnostics)@ + self@.link_events(context@.functions, 0) =~= old(diagnostics)@);
        while i < self.functions.len()
            invariant
                i <= self.functions.len(),
                entry@ == entry_name(),
                diagnostics@ == old(diagnostics)@ + self@.link_events(context@.functions, i as int),
            decreases self.functions.len() - i,
        {
            let function = &self.functions[i];
            let ghost before = self@.link_events(context@.functions, i as int);
            assert(self@.functions[i as int] == function@);
            match function.state {
                FunctionState::Referenced { first } => {
                    let provided = find_name(&self.prelude, function.name.as_slice()).is_some()
                        && context.has_function(function.name.as_slice());
                    if !provided {
                        let event = Diagnostic {
                            source_id: first.source_id,
                            span: first.span,
                            severity: Severity::Error,
                            kind: DiagnosticKind::MissingFunction,
                            detail: Detail::Function(i),
                        };
                        diagnostics.push(event);
                        assert(old(diagnostics)@ + before.push(event) =~= (old(diagnostics)@
                            + before).push(event));
                    }
                },
                FunctionState::Defined { def, called } => {
                    if !called && !bytes_eq(function.name.as_slice(), entry.as_slice()) {
                        let event = Diagnostic {
                            source_id: def.site.source_id,
                            span: def.site.span,
                            severity: Severity::Warning,
                            kind: DiagnosticKind::UnusedFunction,
                            detail: Detail::Function(i),
                        };
                        diagnostics.push(event);
                        assert(old(diagnostics)@ + before.push(event) =~= (old(diagnostics)@
                            + before).push(event));
                    }
                },
            }
            i += 1;
        }
    }

    /// Whether what `inst` refers to exists in the builder.
    fn resolves(&self, inst: Inst) -> (ok: bool)
        ensures
            ok == self@.inst_resolves(inst),
    {
        match inst {
            Inst::Number { slot } => {
                if slot < self.pool.len() {
                    assert(self@.pool[slot as int] == self.pool@[slot as int]@);
                    match self.pool[slot].data {
                        StaticData::Number(_) => true,
                        _ => false,
                    }
                } else {
                    false
                }
            },
            Inst::String { slot } => {
                if slot < self.pool.len() {
                    assert(self@.pool[slot as int] == self.pool@[slot as int]@);
                    match self.pool[slot].data {
                        StaticData::String(_) => true,
                        _ => false,
                    }
                } else {
                    false
                }
            },
            Inst::Bytes { slot } => {
                if slot < self.pool.len() {
                    assert(self@.pool[slot as int] == self.pool@[slot as int]@);
                    match self.pool[slot].data {
                        StaticData::Bytes(_) => true,
                        _ => false,
                    }
                } else {
                    false
                }
            },
            Inst::Call { function, .. } => function < self.functions.len(),
            _ => true,
        }
    }

    /// Why the builder cannot be frozen, if it cannot.
    fn check(&self) -> (error: Option<BuildError>)
        ensures
            error == self@.build_error(),
    {
        let entry = entry_name_bytes();
        let defined = match self.find_function(entry.as_slice()) {
            Some(i) => {
                assert(self@.functions[i as int] == self.functions@[i as int]@);
                match self.functions[i].state {
                    FunctionState::Defined { .. } => true,
                    _ => false,
                }
            },
            None => false,
        };
        if !defined {
            return Some(BuildError::MissingEntry);
        }
        let mut i: usize = 0;
        while i < self.functions.len()
            invariant
                i <= self.functions.len(),
                self@.defines(entry_name()),
                forall|j: int| 0 <= j < i ==> self@.resolved_functions()[j] != false,
            decreases self.functions.len() - i,
        {
            let function = &self.functions[i];
            assert(self@.functions[i as int] == function@);
            if let FunctionState::Referenced { first } = function.state {
                if find_name(&self.prelude, function.name.as_slice()).is_none() {
                    proof {
                        lemma_first_index_found(self@.resolved_functions(), false, i as int);
                    }
                    return Some(BuildError::MissingFunction { function: i, site: first });
                }
            }
            i += 1;
        }
        proof {
            lemma_first_index_absent(self@.resolved_functions(), false);
        }
        let mut ip: usize = 0;
        while ip < self.instructions.len()
            invariant
                ip <= self.instructions.len(),
                self@.defines(entry_name()),
                first_index(self@.resolved_functions(), false) is None,
                forall|j: int| 0 <= j < ip ==> self@.resolved_instructions()[j] != false,
            decreases self.instructions.len() - ip,
        {
            let at = self.instructions[ip];
            if !self.resolves(at.inst) {
                proof {
                    lemma_first_index_found(self@.resolved_instructions(), false, ip as int);
                }
                let site = Site { source_id: at.source_id, span: at.span };
                if let Inst::Call { .. } = at.inst {
                    return Some(BuildError::BadCall { instruction: ip, site });
                }
                return Some(BuildError::MissingSlot { instruction: ip, site });
            }
            ip += 1;
        }
        proof {
            lemma_first_index_absent(self@.resolved_instructions(), false);
        }
        None
    }

    /// Checks the unit as a whole and freezes it.
    ///
    /// The unit must define the entry function `main`; every function of the
    /// table must be defined or be named by the prelude; every instruction
    /// must refer to a static slot that holds a constant of its kind, or to
    /// a position of the function table. The first fault found, in this
    /// order, is returned and the builder is gone.
    pub fn build(self) -> (result: Result<Unit, BuildError>)
        ensures
            match result {
                Ok(unit) => self@.build_error() is None && unit@ == self@.frozen() && unit@.sound(),
                Err(error) => self@.build_error() == Some(error),
            },
    {
        if let Some(error) = self.check() {
            return Err(error);
        }
        let main = entry_name_bytes();
        let entry = match self.find_function(main.as_slice()) {
            Some(i) => i,
            None => 0,
        };
        proof {
            lemma_built_is_sound(self@);
        }
        let unit = Unit {
            instructions: self.instructions,
            pool: self.pool,
            functions: self.functions,
            entry,
        };
        Ok(unit)
    }
}

/// A builder without a build error freezes into a sound unit.
pub proof fn lemma_built_is_sound(unit: UnitModel)
    requires
        unit.build_error() is None,
    ensures
        unit.frozen().sound(),
{
    let frozen = unit.frozen();
    lemma_first_index_sound(unit.names(), entry_name());
    lemma_first_index_sound(unit.resolved_instructions(), false);
    assert forall|i: int| 0 <= i < frozen.instructions.len() implies frozen.inst_resolves(
        (#[trigger] frozen.instructions[i]).inst,
    ) by {
        assert(unit.resolved_instructions()[i] != false);
    }
}

/// The immutable, finalized program: instruction stream, static pool and
/// function table. Nothing changes it once it is built.
pub struct Unit {
    instructions: Vec<Located>,
    pool: Vec<StaticEntry>,
    functions: Vec<FunctionEntry>,
    entry: usize,
}

impl View for Unit {
    type V = UnitView;

    closed spec fn view(&self) -> UnitView {
        UnitView {
            instructions: self.instructions@,
            pool: self.pool@.map_values(|e: StaticEntry| e@),
            functions: self.functions@.map_values(|f: FunctionEntry| f@),
            entry: self.entry as int,
        }
    }
}

impl Unit {
    /// A unit is sound from the moment it is built: see `UnitView::sound`.
    #[verifier::type_invariant]
    spec fn is_sound(&self) -> bool {
        self@.sound()
    }

    /// The instruction stream, in program order. Every static slot and
    /// every function that one of the instructions refers to is in the
    /// unit.
    pub fn instructions(&self) -> (stream: &Vec<Located>)
        ensures
            stream@ == self@.instructions,
            self@.sound(),
    {
        proof {
            use_type_invariant(self);
        }
        &self.instructions
    }

    /// The static pool, by slot.
    pub fn statics(&self) -> (pool: &Vec<StaticEntry>)
        ensures
            pool@.map_values(|e: StaticEntry| e@) == self@.pool,
    {
        &self.pool
    }

    /// The function table, by position.
    pub fn functions(&self) -> (table: &Vec<FunctionEntry>)
        ensures
            table@.map_values(|f: FunctionEntry| f@) == self@.functions,
    {
        &self.functions
    }

    /// The position of the entry function in the function table. The
    /// table defines the function there, under the entry name.
    pub fn entry(&self) -> (position: usize)
        ensures
            position == self@.entry,
            self@.sound(),
    {
        proof {
            use_type_invariant(self);
        }
        self.entry
    }

    /// The constant that the instruction at position `ip` pushes out of the
    /// static pool, where the stream has an instruction there and it
    /// pushes one.
    pub fn constant(&self, ip: usize) -> (constant: Option<&StaticEntry>)
        ensures
            constant matches Some(entry) ==> {
                &&& ip < self@.instructions.len()
                &&& slot_of(self@.instructions[ip as int].inst) matches Some(slot)
                &&& slot < self@.pool.len()
                &&& entry@ == self@.pool[slot as int]
            },
            constant is None ==> ip >= self@.instructions.len() || slot_of(
                self@.instructions[ip as int].inst,
            ) is None,
    {
        proof {
            use_type_invariant(self);
        }
        if ip >= self.instructions.len() {
            return None;
        }
        let slot = match self.instructions[ip].inst {
            Inst::Number { slot } => slot,
            Inst::String { slot } => slot,
            Inst::Bytes { slot } => slot,
            _ => {
                return None;
            },
        };
        assert(self@.inst_resolves(self@.instructions[ip as int].inst));
        assert(self@.pool[slot as int] == self.pool@[slot as int]@);
        Some(&self.pool[slot])
    }
}

} // verus!
