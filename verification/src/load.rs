//! Loading: from a source set to a finished unit.

use crate::compile::{
    compile, compiled_with, given_by, has_imports, import_failures, import_given_of,
    imports_resolved, refused_by, sources_outcome, was_given, Build, CompileVisitor,
    NoopCompileVisitor, NoopSourceLoader, SourceLoader,
};
use crate::context::{default_names, Context, ContextModel};
use crate::diagnostics::{any_error, Diagnostic, Diagnostics};
use crate::inst::{extends, lemma_extends_trans};
use crate::laws::{in_bounds, lemma_build_grown_keeps, lemma_sources_grow};
use crate::source::{Source, Sources};
use crate::span::SourceId;
use crate::unit::{lemma_built_is_sound, Unit, UnitBuilder, UnitModel, UnitView};
use std::rc::Rc;
use vstd::prelude::*;

verus! {

/// What the caller chooses about loading.
#[derive(Clone, Copy, Debug, PartialEq, Eq, Structural)]
pub struct Options {
    /// Whether the unit is linked against the context before it is built:
    /// calls that nothing resolves are then reported, with the place of the
    /// call, before the build, and functions that nothing calls are
    /// reported as warnings.
    pub link_checks: bool,
}

impl Default for Options {
    /// The default options: link checks are on.
    fn default() -> (options: Options)
        ensures
            options == (Options { link_checks: true }),
    {
        Options { link_checks: true }
    }
}

/// The failure of loading. It says nothing more: what went wrong is in the
/// diagnostics that were handed to the loading.
#[derive(Clone, Copy, Debug, PartialEq, Eq, Structural)]
pub struct LoadSourcesError;

impl LoadSourcesError {
    /// The text that describes the failure.
    pub fn message(&self) -> (text: &'static str)
        ensures
            text@ == "failed to load sources (see `errors` for details)"@,
    {
        "failed to load sources (see `errors` for details)"
    }
}

/// The empty unit that loading starts from: with the default prelude where
/// the context has the default modules installed, else with none.
pub open spec fn initial_unit(context: ContextModel) -> UnitModel {
    UnitModel {
        prelude: if context.default_modules {
            default_names()
        } else {
            Seq::empty()
        },
        instructions: Seq::empty(),
        pool: Seq::empty(),
        functions: Seq::empty(),
    }
}

/// The events that linking adds to those of the compilation, where link
/// checks are on.
pub open spec fn linked(context: ContextModel, options: Options, build: Build) -> Seq<Diagnostic> {
    if options.link_checks {
        build.diagnostics + build.unit.link_events(
            context.functions,
            build.unit.functions.len() as int,
        )
    } else {
        build.diagnostics
    }
}

/// What loading makes of a compiled build: the unit, where there is one,
/// and the events in the sink.
///
/// A fatal event of the compilation ends the loading. Else the unit is
/// linked, where link checks are on, and a fatal event of the linking ends
/// the loading. Else the unit is built; a build error is recorded as a
/// fatal event that belongs to no source.
pub open spec fn finished(context: ContextModel, options: Options, build: Build) -> (
    Option<UnitView>,
    Seq<Diagnostic>,
) {
    if any_error(build.diagnostics) {
        (None, build.diagnostics)
    } else if any_error(linked(context, options, build)) {
        (None, linked(context, options, build))
    } else {
        match build.unit.build_error() {
            Some(error) => (
                None,
                linked(context, options, build).push(
                    Diagnostic::build_failure(SourceId::spec_empty(), error),
                ),
            ),
            None => (Some(build.unit.frozen()), linked(context, options, build)),
        }
    }
}

/// What loading gives for a source set as it stands after its imports were
/// resolved, where resolving them left the events `loaded` in the sink.
pub open spec fn load_outcome(
    context: ContextModel,
    options: Options,
    sources: Seq<Source>,
    loaded: Seq<Diagnostic>,
) -> (Option<UnitView>, Seq<Diagnostic>) {
    finished(
        context,
        options,
        sources_outcome(
            sources,
            sources.len() as int,
            Build { unit: initial_unit(context), diagnostics: loaded },
        ),
    )
}

/// What holds after a loading, where resolving the imports left the events
/// `loaded` in the sink.
pub open spec fn loaded_after(
    context: ContextModel,
    options: Options,
    sources_before: Seq<Source>,
    sources_after: Seq<Source>,
    events_before: Seq<Diagnostic>,
    events_after: Seq<Diagnostic>,
    unit: Option<UnitView>,
    loaded: Seq<Diagnostic>,
) -> bool {
    &&& imports_resolved(sources_before, sources_after, events_before, loaded)
    &&& (unit, events_after) == load_outcome(context, options, sources_after, loaded)
}

/// What holds after a loading with the help of `loader`, where resolving
/// the imports left the events `events` in the sink: what `loaded_after`
/// says, and every source that joined the set is one that the loader gave
/// for an import, and every import that was recorded as failed is one that
/// the loader gave no source for.
pub open spec fn loaded_with<L: SourceLoader + ?Sized>(
    loader: &L,
    context: ContextModel,
    options: Options,
    sources_before: Seq<Source>,
    sources_after: Seq<Source>,
    events_before: Seq<Diagnostic>,
    events_after: Seq<Diagnostic>,
    unit: Option<UnitView>,
    events: Seq<Diagnostic>,
) -> bool {
    &&& loaded_after(
        context,
        options,
        sources_before,
        sources_after,
        events_before,
        events_after,
        unit,
        events,
    )
    &&& given_by(loader, sources_before, sources_after)
    &&& refused_by(loader, sources_after, events_before, events)
}

/// What holds after a loading with the help of `loader`: the imports of
/// the set were resolved by the loader, and the unit and the events are
/// what `load_outcome` gives for the set as it then stood.
pub open spec fn loaded_by<L: SourceLoader + ?Sized>(
    loader: &L,
    context: ContextModel,
    options: Options,
    sources_before: Seq<Source>,
    sources_after: Seq<Source>,
    events_before: Seq<Diagnostic>,
    events_after: Seq<Diagnostic>,
    unit: Option<UnitView>,
) -> bool {
    exists|events: Seq<Diagnostic>| #[trigger]
        loaded_with(
            loader,
            context,
            options,
            sources_before,
            sources_after,
            events_before,
            events_after,
            unit,
            events,
        )
}

/// The law of loading, for every source set.
///
/// The events that were in the sink when the compilation began are all
/// still there afterwards, in their places. There is a unit exactly when
/// the sink holds no fatal event. The unit is sound: every static slot and
/// every function that one of its instructions refers to is in the unit;
/// and every instruction carries a span that lies in its source.
pub proof fn lemma_load_outcome(
    context: ContextModel,
    options: Options,
    sources: Seq<Source>,
    loaded: Seq<Diagnostic>,
)
    requires
        sources.len() <= usize::MAX,
        sources_outcome(
            sources,
            sources.len() as int,
            Build { unit: initial_unit(context), diagnostics: loaded },
        ).unit.fits(),
    ensures
        extends(load_outcome(context, options, sources, loaded).1, loaded),
        load_outcome(context, options, sources, loaded).0 is None <==> any_error(
            load_outcome(context, options, sources, loaded).1,
        ),
        load_outcome(context, options, sources, loaded).0 matches Some(unit) ==> unit.sound()
            && in_bounds(sources, unit.instructions),
{
    let before = Build { unit: initial_unit(context), diagnostics: loaded };
    let build = sources_outcome(sources, sources.len() as int, before);
    lemma_sources_grow(sources, sources.len() as int, before);
    lemma_build_grown_keeps(sources, build, before);
    let linked = linked(context, options, build);
    if !any_error(build.diagnostics) && !any_error(linked) {
        match build.unit.build_error() {
            Some(error) => {
                let events = linked.push(Diagnostic::build_failure(SourceId::spec_empty(), error));
                assert(events[linked.len() as int].severity is Error);
            },
            None => {
                lemma_built_is_sound(build.unit);
            },
        }
    }
}

/// The law of determinism: loading the same source set against the same
/// context with the same options, from the same events in the sink, gives
/// the same unit, the same events and the same set, however often it is
/// done and whatever loader stands by. The set holds no import, so that
/// nothing outside the arguments has a say.
pub proof fn lemma_loading_is_deterministic<L: SourceLoader + ?Sized, M: SourceLoader + ?Sized>(
    first_loader: &L,
    second_loader: &M,
    context: ContextModel,
    options: Options,
    sources: Seq<Source>,
    events: Seq<Diagnostic>,
    first_sources: Seq<Source>,
    first_events: Seq<Diagnostic>,
    first_unit: Option<UnitView>,
    second_sources: Seq<Source>,
    second_events: Seq<Diagnostic>,
    second_unit: Option<UnitView>,
)
    requires
        !has_imports(sources),
        loaded_by(
            first_loader,
            context,
            options,
            sources,
            first_sources,
            events,
            first_events,
            first_unit,
        ),
        loaded_by(
            second_loader,
            context,
            options,
            sources,
            second_sources,
            events,
            second_events,
            second_unit,
        ),
    ensures
        first_sources == sources,
        second_sources == sources,
        first_events == second_events,
        first_unit == second_unit,
        (first_unit, first_events) == load_outcome(context, options, sources, events),
{
    let first = choose|mid: Seq<Diagnostic>| #[trigger]
        loaded_with(
            first_loader,
            context,
            options,
            sources,
            first_sources,
            events,
            first_events,
            first_unit,
            mid,
        );
    let second = choose|mid: Seq<Diagnostic>| #[trigger]
        loaded_with(
            second_loader,
            context,
            options,
            sources,
            second_sources,
            events,
            second_events,
            second_unit,
            mid,
        );
    assert(loaded_with(
        first_loader,
        context,
        options,
        sources,
        first_sources,
        events,
        first_events,
        first_unit,
        first,
    ));
    assert(loaded_with(
        second_loader,
        context,
        options,
        sources,
        second_sources,
        events,
        second_events,
        second_unit,
        second,
    ));
}

/// The unit that a loading returned, to specifications.
pub open spec fn unit_of(result: Result<Unit, LoadSourcesError>) -> Option<UnitView> {
    match result {
        Ok(unit) => Some(unit@),
        Err(_) => None,
    }
}

/// Loads and compiles the given sources, with a visitor that observes
/// nothing and a loader that knows no source: every import fails, and the
/// set stays as it is.
///
/// Events are reported to `diagnostics`, under the identifiers that the
/// sources have in the set. Loading fails exactly when `diagnostics` holds
/// a fatal event afterwards.
pub fn load_sources(
    context: &Context,
    options: &Options,
    sources: &mut Sources,
    diagnostics: &mut Diagnostics,
) -> (result: Result<Unit, LoadSourcesError>)
    ensures
        final(sources)@ == old(sources)@,
        (unit_of(result), final(diagnostics)@) == load_outcome(
            context@,
            *options,
            old(sources)@,
            old(diagnostics)@ + import_failures(old(sources)@, old(sources)@.len() as int),
        ),
        extends(final(diagnostics)@, old(diagnostics)@),
        result is Err <==> any_error(final(diagnostics)@),
        result matches Ok(unit) ==> unit@.sound() && in_bounds(final(sources)@, unit@.instructions),
{
    let visitor = Rc::new(NoopCompileVisitor::new());
    let source_loader = Rc::new(NoopSourceLoader::new());
    let ghost loader = source_loader;
    let result = load_sources_with_visitor(
        context,
        options,
        sources,
        diagnostics,
        visitor,
        source_loader,
    );
    proof {
        let events = choose|events: Seq<Diagnostic>| #[trigger]
            loaded_with(
                &*loader,
                context@,
                *options,
                old(sources)@,
                sources@,
                old(diagnostics)@,
                diagnostics@,
                unit_of(result),
                events,
            );
        assert(loaded_with(
            &*loader,
            context@,
            *options,
            old(sources)@,
            sources@,
            old(diagnostics)@,
            diagnostics@,
            unit_of(result),
            events,
        ));
        if old(sources)@.len() < sources@.len() {
            let added = sources@[old(sources)@.len() as int];
            assert(was_given(&*loader, sources@, added));
            let (i, k) = choose|i: int, k: int| #[trigger]
                import_given_of(&*loader, sources@, i, k, added);
            assert(import_given_of(&*loader, sources@, i, k, added));
        }
        assert(sources@ =~= old(sources)@);
    }
    result
}

/// Loads and compiles the given sources: compiles them into an empty unit
/// builder, links the builder where `options` ask for it, and builds the
/// unit.
///
/// The visitor is told of every function that enters the unit; the loader
/// is asked for every import, and every source that joins the set is one
/// that it gave. Loading fails exactly when `diagnostics` holds a fatal
/// event afterwards.
pub fn load_sources_with_visitor<V: CompileVisitor + ?Sized, L: SourceLoader + ?Sized>(
    context: &Context,
    options: &Options,
    sources: &mut Sources,
    diagnostics: &mut Diagnostics,
    visitor: Rc<V>,
    source_loader: Rc<L>,
) -> (result: Result<Unit, LoadSourcesError>)
    ensures
        loaded_by(
            &*source_loader,
            context@,
            *options,
            old(sources)@,
            final(sources)@,
            old(diagnostics)@,
            final(diagnostics)@,
            unit_of(result),
        ),
        !has_imports(old(sources)@) ==> final(sources)@ == old(sources)@ && (
            unit_of(result),
            final(diagnostics)@,
        ) == load_outcome(context@, *options, old(sources)@, old(diagnostics)@),
        extends(final(diagnostics)@, old(diagnostics)@),
        result is Err <==> any_error(final(diagnostics)@),
        result matches Ok(unit) ==> unit@.sound() && in_bounds(final(sources)@, unit@.instructions),
{
    let mut unit = if context.has_default_modules() {
        UnitBuilder::with_default_prelude()
    } else {
        UnitBuilder::default()
    };
    let ghost before = Build { unit: unit@, diagnostics: diagnostics@ };
    let ghost loader = source_loader;
    assert(unit@ == initial_unit(context@));

    let result = compile(sources, &mut unit, diagnostics, visitor, source_loader);

    let ghost build = Build { unit: unit@, diagnostics: diagnostics@ };
    let ghost events = choose|events: Seq<Diagnostic>| #[trigger]
        compiled_with(&*loader, old(sources)@, sources@, before, build, events);
    assert(compiled_with(&*loader, old(sources)@, sources@, before, build, events));
    proof {
        unit.lemma_fits();
        sources.lemma_len_fits();
        lemma_load_outcome(context@, *options, sources@, events);
        lemma_extends_trans(
            load_outcome(context@, *options, sources@, events).1,
            events,
            old(diagnostics)@,
        );
    }

    if let Err(()) = result {
        assert(loaded_with(
            &*loader,
            context@,
            *options,
            old(sources)@,
            sources@,
            old(diagnostics)@,
            diagnostics@,
            None,
            events,
        ));
        return Err(LoadSourcesError);
    }
    if options.link_checks {
        unit.link(context, diagnostics);

        if diagnostics.has_error() {
            assert(loaded_with(
                &*loader,
                context@,
                *options,
                old(sources)@,
                sources@,
                old(diagnostics)@,
                diagnostics@,
                None,
                events,
            ));
            return Err(LoadSourcesError);
        }
    }
    match unit.build() {
        Ok(unit) => {
            assert(loaded_with(
                &*loader,
                context@,
                *options,
                old(sources)@,
                sources@,
                old(diagnostics)@,
                diagnostics@,
                Some(unit@),
                events,
            ));
            Ok(unit)
        },
        Err(error) => {
            let ghost linked = diagnostics@;
            diagnostics.build_error(SourceId::empty(), error);
            assert(diagnostics@[linked.len() as int].severity is Error);
            assert(loaded_with(
                &*loader,
                context@,
                *options,
                old(sources)@,
                sources@,
                old(diagnostics)@,
                diagnostics@,
                None,
                events,
            ));
            Err(LoadSourcesError)
        },
    }
}

} // verus!
