//! Compilation of a source set into a unit builder.
//!
//! Imports are resolved first: the source loader is asked for every import
//! of every source, and what it gives joins the set. Then every function of
//! every source is assembled, in the order of the set, and defined in the
//! unit. A function that fails is recorded and left out; the functions
//! after it are still compiled.

use crate::assemble::{block_outcome, Compiler, Scope, State};
use crate::ast::{Item, ItemFn, ItemImport};
use crate::diagnostics::{any_error, CompileError, Diagnostic, DiagnosticKind, Diagnostics};
use crate::inst::{extends, Assembly, Inst};
use crate::needs::Needs;
use crate::source::{Source, Sources};
use crate::span::{Site, SourceId, Span};
use crate::unit::{UnitBuilder, UnitModel};
use std::rc::Rc;
use vstd::prelude::*;
use vstd::slice::slice_to_vec;

verus! {

/// Observes what is compiled, for tooling such as symbol indexes. It has
/// no say in the compilation.
pub trait CompileVisitor {
    /// Called once for every function that entered the unit: the source
    /// and span of its definition, and its position in the function table.
    fn visit_function(&self, source_id: SourceId, span: Span, position: usize);
}

/// The visitor that observes nothing.
pub struct NoopCompileVisitor {}

impl NoopCompileVisitor {
    /// A visitor that observes nothing.
    pub fn new() -> NoopCompileVisitor {
        NoopCompileVisitor {  }
    }
}

impl CompileVisitor for NoopCompileVisitor {
    fn visit_function(&self, source_id: SourceId, span: Span, position: usize) {
    }
}

/// Why a source loader did not give a source.
#[derive(Clone, Copy, Debug, PartialEq, Eq, Structural)]
pub enum SourceLoadError {
    /// Nothing goes by the path that was asked for.
    NotFound,
    /// The source exists and could not be read.
    Unreadable,
}

/// Resolves the path of an import to the source it names.
pub trait SourceLoader {
    /// Whether `loaded` is something that this loader may give when it is
    /// asked for `path`. A loader says here what it wants to be known of
    /// it; unless it says otherwise, it may give anything.
    open spec fn gives(&self, path: Seq<u8>, loaded: Result<Source, SourceLoadError>) -> bool {
        true
    }

    /// The source that goes by `path`, parsed, or why there is none.
    fn load(&self, path: &[u8]) -> (loaded: Result<Source, SourceLoadError>)
        ensures
            self.gives(path@, loaded),
    ;
}

/// The loader that knows no source.
pub struct NoopSourceLoader {}

impl NoopSourceLoader {
    /// A loader that knows no source.
    pub fn new() -> NoopSourceLoader {
        NoopSourceLoader {  }
    }
}

impl SourceLoader for NoopSourceLoader {
    /// Whatever the path, nothing is found.
    open spec fn gives(&self, path: Seq<u8>, loaded: Result<Source, SourceLoadError>) -> bool {
        loaded == Err::<Source, SourceLoadError>(SourceLoadError::NotFound)
    }

    fn load(&self, path: &[u8]) -> (loaded: Result<Source, SourceLoadError>) {
        Err(SourceLoadError::NotFound)
    }
}

/// The unit under construction and the events recorded so far.
pub struct Build {
    /// The unit.
    pub unit: UnitModel,
    /// The events.
    pub diagnostics: Seq<Diagnostic>,
}

impl Build {
    /// The build after `error` was recorded as a fatal event of the source
    /// `source_id`.
    pub open spec fn failed(self, source_id: SourceId, error: CompileError) -> Build {
        Build { diagnostics: self.diagnostics.push(Diagnostic::failure(source_id, error)), ..self }
    }
}

/// What compiling one function definition makes of the build.
///
/// The body is assembled for its value in a fresh assembly, with the
/// parameters as its local variables, and a return is emitted after it.
/// The function is then defined in the unit under the name that its text
/// gives. Where its span or the span of its name lies outside the text,
/// where the body ends in an error, or where the unit already defines the
/// name, the fault is recorded as a fatal event and the function is not
/// defined; what the body put into the static pool and the function table
/// before the fault stays.
pub open spec fn fn_outcome(item: ItemFn, source_id: SourceId, text: Seq<u8>, before: Build) -> Build {
    let scope = Scope { source_id, text, locals: item.params@, context: Some(item.span) };
    if !scope.holds(item.span) {
        before.failed(source_id, CompileError { span: item.span, kind: DiagnosticKind::BadSpan })
    } else if !scope.holds(item.name) {
        before.failed(source_id, CompileError { span: item.name, kind: DiagnosticKind::BadSpan })
    } else {
        let body = block_outcome(
            item.body,
            scope,
            State { unit: before.unit, diagnostics: before.diagnostics, code: Seq::empty() },
            Needs::Value,
        );
        let after = Build { unit: body.state.unit, diagnostics: body.state.diagnostics };
        let name = scope.token(item.name);
        match body.result {
            Err(error) => after.failed(source_id, error),
            Ok(_) => if after.unit.defines(name) {
                after.failed(
                    source_id,
                    CompileError { span: item.span, kind: DiagnosticKind::FunctionConflict },
                )
            } else {
                Build {
                    unit: after.unit.with_function(
                        name,
                        item.params@.len() as usize,
                        body.state.emit(scope, Inst::Return, item.span).code,
                        Site { source_id, span: item.span },
                    ),
                    ..after
                }
            },
        }
    }
}

/// The position in the function table at which compiling one function
/// definition defines the function, or nothing where it is not defined:
/// where a span lies outside the text, the body ends in an error, or the
/// unit already defines the name.
pub open spec fn fn_position(
    item: ItemFn,
    source_id: SourceId,
    text: Seq<u8>,
    before: Build,
) -> Option<usize> {
    let scope = Scope { source_id, text, locals: item.params@, context: Some(item.span) };
    let body = block_outcome(
        item.body,
        scope,
        State { unit: before.unit, diagnostics: before.diagnostics, code: Seq::empty() },
        Needs::Value,
    );
    let name = scope.token(item.name);
    if scope.holds(item.span) && scope.holds(item.name) && body.result is Ok
        && !body.state.unit.defines(name) {
        Some(body.state.unit.position(name) as usize)
    } else {
        None
    }
}

/// What compiling the first `count` items of a source makes of the build.
/// Imports are passed over: they were resolved before.
pub open spec fn items_outcome(
    items: Seq<Item>,
    count: int,
    source_id: SourceId,
    text: Seq<u8>,
    before: Build,
) -> Build
    decreases count,
{
    if count <= 0 || count > items.len() {
        before
    } else {
        let earlier = items_outcome(items, count - 1, source_id, text, before);
        match items[count - 1] {
            Item::Fn(item) => fn_outcome(item, source_id, text, earlier),
            Item::Import(_) => earlier,
        }
    }
}

/// What compiling the first `count` sources of a set makes of the build.
/// Each source goes by its position in the set.
pub open spec fn sources_outcome(sources: Seq<Source>, count: int, before: Build) -> Build
    decreases count,
{
    if count <= 0 || count > sources.len() {
        before
    } else {
        let source = sources[count - 1];
        items_outcome(
            source.items@,
            source.items@.len() as int,
            SourceId { index: (count - 1) as usize },
            source.text@,
            sources_outcome(sources, count - 1, before),
        )
    }
}

/// Whether some source of the set holds an import.
pub open spec fn has_imports(sources: Seq<Source>) -> bool {
    exists|i: int, k: int|
        0 <= i < sources.len() && 0 <= k < sources[i].items@.len() && (
        #[trigger] sources[i].items@[k]) is Import
}

/// The fatal event that is recorded when `import`, an item of the source
/// at position `index`, fails: at the import where the loader gave no
/// source, or at its path where the path lies outside the text.
pub open spec fn import_failure(source: Source, index: int, import: ItemImport) -> Diagnostic {
    Diagnostic::failure(
        SourceId { index: index as usize },
        if source.holds(import.path) {
            CompileError { span: import.span, kind: DiagnosticKind::ImportFailed }
        } else {
            CompileError { span: import.path, kind: DiagnosticKind::BadSpan }
        },
    )
}

/// The events that are recorded when every import among the first `count`
/// items of the source at position `index` fails, in the order of the
/// items.
pub open spec fn import_failures_in(source: Source, index: int, count: int) -> Seq<Diagnostic>
    decreases count,
{
    if count <= 0 || count > source.items@.len() {
        Seq::empty()
    } else {
        let earlier = import_failures_in(source, index, count - 1);
        match source.items@[count - 1] {
            Item::Import(import) => earlier.push(import_failure(source, index, import)),
            Item::Fn(_) => earlier,
        }
    }
}

/// The events that are recorded when every import of the first `count`
/// sources of the set fails, in the order of the set.
pub open spec fn import_failures(sources: Seq<Source>, count: int) -> Seq<Diagnostic>
    decreases count,
{
    if count <= 0 || count > sources.len() {
        Seq::empty()
    } else {
        import_failures(sources, count - 1) + import_failures_in(
            sources[count - 1],
            count - 1,
            sources[count - 1].items@.len() as int,
        )
    }
}

/// Whether `event` is what resolving the import at position `k` of the
/// source at position `i` records when the import fails.
pub open spec fn import_event_of(sources: Seq<Source>, i: int, k: int, event: Diagnostic) -> bool {
    &&& 0 <= i < sources.len()
    &&& 0 <= k < sources[i].items@.len()
    &&& sources[i].items@[k] matches Item::Import(import)
    &&& event == import_failure(sources[i], i, import)
}

/// Whether `event` is what resolving some import of the set records when
/// the import fails.
pub open spec fn is_import_event(sources: Seq<Source>, event: Diagnostic) -> bool {
    exists|i: int, k: int| #[trigger] import_event_of(sources, i, k, event)
}

/// What holds while the imports of a source set are resolved, whatever the
/// loader gives: sources and events are only added, every added event is
/// that of an import of the set that failed, and as long as no import was
/// met, nothing is added.
pub open spec fn imports_underway(
    sources_before: Seq<Source>,
    sources_after: Seq<Source>,
    events_before: Seq<Diagnostic>,
    events_after: Seq<Diagnostic>,
) -> bool {
    &&& extends(sources_after, sources_before)
    &&& extends(events_after, events_before)
    &&& forall|i: int|
        events_before.len() <= i < events_after.len() ==> is_import_event(
            sources_after,
            #[trigger] events_after[i],
        )
    &&& !has_imports(sources_before) ==> sources_after == sources_before && events_after
        == events_before
}

/// What holds after the imports of a source set were resolved, whatever
/// the loader gave: sources and events were only added, and every added
/// event is that of an import of the set that failed. A set without
/// imports is left as it was, with no event added. Where no source was
/// added, every import failed, and the added events are those of all the
/// imports of the set, in order.
pub open spec fn imports_resolved(
    sources_before: Seq<Source>,
    sources_after: Seq<Source>,
    events_before: Seq<Diagnostic>,
    events_after: Seq<Diagnostic>,
) -> bool {
    &&& imports_underway(sources_before, sources_after, events_before, events_after)
    &&& sources_after == sources_before ==> events_after == events_before + import_failures(
        sources_before,
        sources_before.len() as int,
    )
}

/// Whether the loader may have given `source` for the import at position
/// `k` of the source at position `i`, when it was asked for the text of
/// the import's path.
pub open spec fn import_given_of<L: SourceLoader + ?Sized>(
    loader: &L,
    sources: Seq<Source>,
    i: int,
    k: int,
    source: Source,
) -> bool {
    &&& 0 <= i < sources.len()
    &&& 0 <= k < sources[i].items@.len()
    &&& sources[i].items@[k] matches Item::Import(import)
    &&& sources[i].holds(import.path)
    &&& loader.gives(sources[i].token(import.path), Ok(source))
}

/// Whether the loader may have given `source` for some import of the set.
pub open spec fn was_given<L: SourceLoader + ?Sized>(
    loader: &L,
    sources: Seq<Source>,
    source: Source,
) -> bool {
    exists|i: int, k: int| #[trigger] import_given_of(loader, sources, i, k, source)
}

/// Whether every source that was added to the set is one that the loader
/// may have given for an import of the set.
pub open spec fn given_by<L: SourceLoader + ?Sized>(
    loader: &L,
    sources_before: Seq<Source>,
    sources_after: Seq<Source>,
) -> bool {
    forall|j: int|
        sources_before.len() <= j < sources_after.len() ==> was_given(
            loader,
            sources_after,
            #[trigger] sources_after[j],
        )
}

/// Whether the loader may have given no source when it was asked for
/// `path`.
pub open spec fn may_refuse<L: SourceLoader + ?Sized>(loader: &L, path: Seq<u8>) -> bool {
    exists|error: SourceLoadError| #[trigger]
        loader.gives(path, Err::<Source, SourceLoadError>(error))
}

/// Whether `event` is what resolving the import at position `k` of the
/// source at position `i` records when the import fails, and the loader
/// may have failed it: where the path of the import lies in the text, the
/// loader may have given no source for it.
pub open spec fn import_refused_of<L: SourceLoader + ?Sized>(
    loader: &L,
    sources: Seq<Source>,
    i: int,
    k: int,
    event: Diagnostic,
) -> bool {
    &&& import_event_of(sources, i, k, event)
    &&& sources[i].items@[k] matches Item::Import(import)
    &&& sources[i].holds(import.path) ==> may_refuse(loader, sources[i].token(import.path))
}

/// Whether `event` is the failure of some import of the set that the
/// loader may have failed.
pub open spec fn was_refused<L: SourceLoader + ?Sized>(
    loader: &L,
    sources: Seq<Source>,
    event: Diagnostic,
) -> bool {
    exists|i: int, k: int| #[trigger] import_refused_of(loader, sources, i, k, event)
}

/// Whether every event that was added to the sink is the failure of an
/// import of the set that the loader may have failed: no import is
/// recorded as failed for which the loader can only give a source.
pub open spec fn refused_by<L: SourceLoader + ?Sized>(
    loader: &L,
    sources_after: Seq<Source>,
    events_before: Seq<Diagnostic>,
    events_after: Seq<Diagnostic>,
) -> bool {
    forall|j: int|
        events_before.len() <= j < events_after.len() ==> was_refused(
            loader,
            sources_after,
            #[trigger] events_after[j],
        )
}

/// What holds after a source set was compiled into a unit builder, where
/// resolving the imports left the events `loaded` behind: every source of
/// the set as it then stood was compiled, in order.
pub open spec fn compiled_after(
    sources_before: Seq<Source>,
    sources_after: Seq<Source>,
    before: Build,
    after: Build,
    loaded: Seq<Diagnostic>,
) -> bool {
    &&& imports_resolved(sources_before, sources_after, before.diagnostics, loaded)
    &&& after == sources_outcome(
        sources_after,
        sources_after.len() as int,
        Build { unit: before.unit, diagnostics: loaded },
    )
}

/// What holds after a source set was compiled into a unit builder with
/// the help of `loader`, where resolving the imports left the events
/// `loaded` behind: what `compiled_after` says, and every source that
/// joined the set is one that the loader gave for an import, and every
/// import that was recorded as failed is one that the loader gave no
/// source for.
pub open spec fn compiled_with<L: SourceLoader + ?Sized>(
    loader: &L,
    sources_before: Seq<Source>,
    sources_after: Seq<Source>,
    before: Build,
    after: Build,
    loaded: Seq<Diagnostic>,
) -> bool {
    &&& compiled_after(sources_before, sources_after, before, after, loaded)
    &&& given_by(loader, sources_before, sources_after)
    &&& refused_by(loader, sources_after, before.diagnostics, loaded)
}

/// What holds after a source set was compiled into a unit builder with
/// the help of `loader`: the imports were resolved, leaving some events
/// behind, and then every source of the set as it then stood was compiled,
/// in order.
pub open spec fn compiled_by<L: SourceLoader + ?Sized>(
    loader: &L,
    sources_before: Seq<Source>,
    sources_after: Seq<Source>,
    before: Build,
    after: Build,
) -> bool {
    exists|loaded: Seq<Diagnostic>| #[trigger]
        compiled_with(loader, sources_before, sources_after, before, after, loaded)
}

/// Compiles one function definition of the source `source_id` into `unit`:
/// see `fn_outcome`. Returns the unit, the sink, and the position at which
/// the function entered the function table, where it did: see
/// `fn_position`. That position is what a visitor is to be told.
pub fn compile_fn(
    item: &ItemFn,
    source_id: SourceId,
    source: &Source,
    unit: UnitBuilder,
    diagnostics: Diagnostics,
) -> (after: (UnitBuilder, Diagnostics, Option<usize>))
    ensures
        (Build { unit: after.0@, diagnostics: after.1@ }) == fn_outcome(
            *item,
            source_id,
            source.text@,
            Build { unit: unit@, diagnostics: diagnostics@ },
        ),
        after.2 == fn_position(
            *item,
            source_id,
            source.text@,
            Build { unit: unit@, diagnostics: diagnostics@ },
        ),
{
    let mut diagnostics = diagnostics;
    if !source.contains(item.span) {
        diagnostics.error(source_id, CompileError::new(item.span, DiagnosticKind::BadSpan));
        return (unit, diagnostics, None);
    }
    let name = match source.get(item.name) {
        Some(name) => name,
        None => {
            diagnostics.error(source_id, CompileError::new(item.name, DiagnosticKind::BadSpan));
            return (unit, diagnostics, None);
        },
    };
    let mut c = Compiler {
        source,
        locals: &item.params,
        context: Some(item.span),
        unit,
        diagnostics,
        assembly: Assembly::new(source_id),
    };
    let result = item.body.assemble(&mut c, Needs::Value);
    let Compiler { mut unit, mut diagnostics, mut assembly, .. } = c;
    let mut defined: Option<usize> = None;
    match result {
        Err(error) => {
            diagnostics.error(source_id, error);
        },
        Ok(_) => {
            assembly.push(Inst::Return, item.span);
            match unit.new_function(name, item.params.len(), assembly, item.span) {
                Ok(position) => {
                    defined = Some(position);
                },
                Err(error) => {
                    diagnostics.error(source_id, error);
                },
            }
        },
    }
    (unit, diagnostics, defined)
}

/// Compiles every function of every source of the set into `unit`, in the
/// order of the set: see `sources_outcome`. The visitor is told of every
/// function that entered the unit, right after it did: the source and the
/// span of its definition, and its position in the function table.
pub fn compile_items<V: CompileVisitor + ?Sized>(
    sources: &Sources,
    unit: UnitBuilder,
    diagnostics: Diagnostics,
    visitor: &Rc<V>,
) -> (after: (UnitBuilder, Diagnostics))
    ensures
        (Build { unit: after.0@, diagnostics: after.1@ }) == sources_outcome(
            sources@,
            sources@.len() as int,
            Build { unit: unit@, diagnostics: diagnostics@ },
        ),
{
    let ghost before = Build { unit: unit@, diagnostics: diagnostics@ };
    let mut unit = unit;
    let mut diagnostics = diagnostics;
    let mut i: usize = 0;
    while i < sources.len()
        invariant
            i <= sources@.len(),
            (Build { unit: unit@, diagnostics: diagnostics@ }) == sources_outcome(
                sources@,
                i as int,
                before,
            ),
        decreases sources@.len() - i,
    {
        let source_id = SourceId::new(i);
        let source = match sources.get(source_id) {
            Some(source) => source,
            None => {
                return (unit, diagnostics);
            },
        };
        let ghost earlier = Build { unit: unit@, diagnostics: diagnostics@ };
        let mut k: usize = 0;
        while k < source.items.len()
            invariant
                k <= source.items@.len(),
                (Build { unit: unit@, diagnostics: diagnostics@ }) == items_outcome(
                    source.items@,
                    k as int,
                    source_id,
                    source.text@,
                    earlier,
                ),
            decreases source.items@.len() - k,
        {
            if let Item::Fn(item) = &source.items[k] {
                let (u, d, defined) = compile_fn(item, source_id, source, unit, diagnostics);
                unit = u;
                diagnostics = d;
                if let Some(position) = defined {
                    visitor.visit_function(source_id, item.span, position);
                }
            }
            k += 1;
        }
        i += 1;
    }
    (unit, diagnostics)
}

/// Takes in what the loader gave for the import at `span` of the source
/// `source_id`: a source joins the set, a failure is recorded as a fatal
/// event.
pub fn import_loaded(
    sources: &mut Sources,
    diagnostics: &mut Diagnostics,
    source_id: SourceId,
    span: Span,
    loaded: Result<Source, SourceLoadError>,
)
    ensures
        match loaded {
            Ok(source) => final(sources)@ == old(sources)@.push(source) && final(diagnostics)@
                == old(diagnostics)@,
            Err(_) => final(sources)@ == old(sources)@ && final(diagnostics)@ == old(
                diagnostics,
            )@.push(
                Diagnostic::failure(
                    source_id,
                    CompileError { span, kind: DiagnosticKind::ImportFailed },
                ),
            ),
        },
{
    match loaded {
        Ok(source) => {
            sources.insert(source);
        },
        Err(_) => {
            diagnostics.error(source_id, CompileError::new(span, DiagnosticKind::ImportFailed));
        },
    }
}

/// What is to be done about one item when imports are resolved.
enum ImportRequest {
    /// The item is no import.
    Skip,
    /// The path of the import lies outside the text, at `at`.
    BadPath { at: Span },
    /// The import at `span` asks for the source that goes by `path`.
    Load { span: Span, path: Vec<u8> },
}

/// What is to be done about the item at position `k` of the source at
/// position `i`.
fn import_request(sources: &Sources, i: usize, k: usize) -> (request: ImportRequest)
    requires
        i < sources@.len(),
        k < sources@[i as int].items@.len(),
    ensures
        match request {
            ImportRequest::Skip => !(sources@[i as int].items@[k as int] is Import),
            ImportRequest::BadPath { at } => {
                &&& sources@[i as int].items@[k as int] matches Item::Import(import)
                &&& at == import.path
                &&& !sources@[i as int].holds(import.path)
            },
            ImportRequest::Load { span, path } => {
                &&& sources@[i as int].items@[k as int] matches Item::Import(import)
                &&& span == import.span
                &&& sources@[i as int].holds(import.path)
                &&& path@ == sources@[i as int].token(import.path)
            },
        },
{
    let source = match sources.get(SourceId::new(i)) {
        Some(source) => source,
        None => {
            return ImportRequest::Skip;
        },
    };
    match &source.items[k] {
        Item::Fn(_) => ImportRequest::Skip,
        Item::Import(import) => match source.get(import.path) {
            Some(path) => ImportRequest::Load { span: import.span, path: slice_to_vec(path) },
            None => ImportRequest::BadPath { at: import.path },
        },
    }
}

/// Resolves the imports of the set, those of the sources that join it on
/// the way included: see `imports_resolved`. Every source that joins the
/// set is one that the loader gave for an import, and every import that is
/// recorded as failed is one that the loader gave no source for.
///
/// The loader is asked once for each import, with the text of its path, in
/// the order of the set and of the items. A path that lies outside the
/// text is recorded as fatal without asking.
pub fn resolve_imports<L: SourceLoader + ?Sized>(
    sources: &mut Sources,
    diagnostics: &mut Diagnostics,
    source_loader: &Rc<L>,
)
    ensures
        imports_resolved(old(sources)@, final(sources)@, old(diagnostics)@, final(diagnostics)@),
        given_by(&**source_loader, old(sources)@, final(sources)@),
        refused_by(&**source_loader, final(sources)@, old(diagnostics)@, final(diagnostics)@),
{
    let mut i: usize = 0;
    assert(old(diagnostics)@ + import_failures(sources@, 0) =~= old(diagnostics)@);
    while i < sources.len()
        invariant
            i <= sources@.len(),
            imports_underway(old(sources)@, sources@, old(diagnostics)@, diagnostics@),
            given_by(&**source_loader, old(sources)@, sources@),
            refused_by(&**source_loader, sources@, old(diagnostics)@, diagnostics@),
            sources@ == old(sources)@ ==> diagnostics@ == old(diagnostics)@ + import_failures(
                sources@,
                i as int,
            ),
        decreases usize::MAX - i,
    {
        let source_id = SourceId::new(i);
        let count = match sources.get(source_id) {
            Some(source) => source.items.len(),
            None => 0,
        };
        let ghost source = sources@[i as int];
        let ghost earlier = import_failures(sources@, i as int);
        let mut k: usize = 0;
        assert(old(diagnostics)@ + earlier + import_failures_in(source, i as int, 0) =~= old(
            diagnostics,
        )@ + earlier);
        while k < count
            invariant
                i < sources@.len(),
                k <= count,
                source == sources@[i as int],
                count == source.items@.len(),
                source_id.index == i,
                imports_underway(old(sources)@, sources@, old(diagnostics)@, diagnostics@),
                given_by(&**source_loader, old(sources)@, sources@),
                refused_by(&**source_loader, sources@, old(diagnostics)@, diagnostics@),
                sources@ == old(sources)@ ==> earlier == import_failures(sources@, i as int)
                    && diagnostics@ == old(diagnostics)@ + earlier + import_failures_in(
                    source,
                    i as int,
                    k as int,
                ),
            decreases count - k,
        {
            let ghost sources_now = sources@;
            let ghost events_now = diagnostics@;
            let ghost failures_now = import_failures_in(source, i as int, k as int);
            match import_request(sources, i, k) {
                ImportRequest::Skip => {},
                ImportRequest::BadPath { at } => {
                    diagnostics.error(source_id, CompileError::new(at, DiagnosticKind::BadSpan));
                },
                ImportRequest::Load { span, path } => {
                    let loaded = source_loader.load(path.as_slice());
                    let ghost outcome = loaded;
                    import_loaded(sources, diagnostics, source_id, span, loaded);
                    proof {
                        assert(sources@[i as int] == sources_now[i as int]);
                        match outcome {
                            Ok(given) => {
                                assert(sources@[sources_now.len() as int] == given);
                                assert(import_given_of(
                                    &**source_loader,
                                    sources@,
                                    i as int,
                                    k as int,
                                    given,
                                ));
                            },
                            Err(error) => {
                                assert(may_refuse(&**source_loader, path@));
                                assert(import_refused_of(
                                    &**source_loader,
                                    sources@,
                                    i as int,
                                    k as int,
                                    diagnostics@[events_now.len() as int],
                                ));
                            },
                        }
                    }
                },
            }
            proof {
                if sources_now[i as int].items@[k as int] is Import {
                    if !has_imports(old(sources)@) {
                        assert(sources_now == old(sources)@);
                        assert(old(sources)@[i as int].items@[k as int] is Import);
                    }
                }
                assert(extends(sources@, sources_now));
                assert(extends(diagnostics@, events_now));
                assert(sources@[i as int] == sources_now[i as int]);
                assert forall|j: int| old(diagnostics)@.len() <= j < diagnostics@.len() implies is_import_event(
                    sources@,
                    #[trigger] diagnostics@[j],
                ) && was_refused(&**source_loader, sources@, diagnostics@[j]) by {
                    if j < events_now.len() {
                        assert(diagnostics@[j] == events_now[j]);
                        assert(was_refused(&**source_loader, sources_now, events_now[j]));
                        let (a, b) = choose|a: int, b: int| #[trigger]
                            import_refused_of(&**source_loader, sources_now, a, b, events_now[j]);
                        assert(sources@[a] == sources_now[a]);
                        assert(import_refused_of(
                            &**source_loader,
                            sources@,
                            a,
                            b,
                            diagnostics@[j],
                        ));
                        assert(import_event_of(sources@, a, b, diagnostics@[j]));
                    } else {
                        assert(import_refused_of(
                            &**source_loader,
                            sources@,
                            i as int,
                            k as int,
                            diagnostics@[j],
                        ));
                        assert(import_event_of(sources@, i as int, k as int, diagnostics@[j]));
                    }
                }
                assert forall|j: int| old(sources)@.len() <= j < sources@.len() implies was_given(
                    &**source_loader,
                    sources@,
                    #[trigger] sources@[j],
                ) by {
                    if j < sources_now.len() {
                        assert(sources@[j] == sources_now[j]);
                        assert(was_given(&**source_loader, sources_now, sources_now[j]));
                        let (a, b) = choose|a: int, b: int| #[trigger]
                            import_given_of(&**source_loader, sources_now, a, b, sources_now[j]);
                        assert(sources@[a] == sources_now[a]);
                        assert(import_given_of(&**source_loader, sources@, a, b, sources@[j]));
                    }
                }
                if sources@ == old(sources)@ {
                    assert(sources_now.len() == old(sources)@.len());
                    assert(sources_now =~= old(sources)@);
                    if let Item::Import(import) = source.items@[k as int] {
                        assert(diagnostics@ =~= old(diagnostics)@ + earlier + failures_now.push(
                            import_failure(source, i as int, import),
                        ));
                    }
                }
            }
            k += 1;
        }
        proof {
            if sources@ == old(sources)@ {
                assert(old(diagnostics)@ + earlier + import_failures_in(
                    source,
                    i as int,
                    count as int,
                ) =~= old(diagnostics)@ + import_failures(sources@, i + 1));
            }
        }
        i += 1;
    }
}

/// Compiles the source set into `unit`: resolves the imports, then
/// compiles every function of every source. Fails exactly when the sink
/// holds a fatal event afterwards.
pub fn compile<V: CompileVisitor + ?Sized, L: SourceLoader + ?Sized>(
    sources: &mut Sources,
    unit: &mut UnitBuilder,
    diagnostics: &mut Diagnostics,
    visitor: Rc<V>,
    source_loader: Rc<L>,
) -> (result: Result<(), ()>)
    ensures
        compiled_by(
            &*source_loader,
            old(sources)@,
            final(sources)@,
            Build { unit: old(unit)@, diagnostics: old(diagnostics)@ },
            Build { unit: final(unit)@, diagnostics: final(diagnostics)@ },
        ),
        result is Err <==> any_error(final(diagnostics)@),
{
    resolve_imports(sources, diagnostics, &source_loader);
    let ghost loaded = diagnostics@;
    let mut owned_unit = UnitBuilder::default();
    let mut owned_diagnostics = Diagnostics::new();
    core::mem::swap(unit, &mut owned_unit);
    core::mem::swap(diagnostics, &mut owned_diagnostics);
    let (mut owned_unit, mut owned_diagnostics) = compile_items(
        sources,
        owned_unit,
        owned_diagnostics,
        &visitor,
    );
    core::mem::swap(unit, &mut owned_unit);
    core::mem::swap(diagnostics, &mut owned_diagnostics);
    proof {
        assert(compiled_with(
            &*source_loader,
            old(sources)@,
            sources@,
            Build { unit: old(unit)@, diagnostics: old(diagnostics)@ },
            Build { unit: unit@, diagnostics: diagnostics@ },
            loaded,
        ));
    }
    if diagnostics.has_error() {
        Err(())
    } else {
        Ok(())
    }
}

} // verus!
