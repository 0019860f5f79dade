//! The execution context a unit is compiled against.
//!
//! The context knows which functions the host provides. The compiler only
//! asks it whether a name is provided; installing the functions themselves
//! is the host's business.

use crate::bytes::{find_name, first_index};
use vstd::prelude::*;
use vstd::slice::slice_to_vec;

verus! {

/// The names of the functions that the default modules provide, and that a
/// unit with the default prelude may call without defining them: `dbg`,
/// `drop`, `panic`, `print` and `println`.
pub open spec fn default_names() -> Seq<Seq<u8>> {
    seq![
        seq![100u8, 98u8, 103u8],
        seq![100u8, 114u8, 111u8, 112u8],
        seq![112u8, 97u8, 110u8, 105u8, 99u8],
        seq![112u8, 114u8, 105u8, 110u8, 116u8],
        seq![112u8, 114u8, 105u8, 110u8, 116u8, 108u8, 110u8],
    ]
}

/// Whether `names` holds `name`.
pub open spec fn has_name(names: Seq<Seq<u8>>, name: Seq<u8>) -> bool {
    first_index(names, name) is Some
}

/// The names of `default_names`, as owned byte vectors.
pub fn default_name_list() -> (names: Vec<Vec<u8>>)
    ensures
        names@.map_values(|n: Vec<u8>| n@) == default_names(),
{
    let names: Vec<Vec<u8>> = vec![
        vec![100u8, 98u8, 103u8],
        vec![100u8, 114u8, 111u8, 112u8],
        vec![112u8, 97u8, 110u8, 105u8, 99u8],
        vec![112u8, 114u8, 105u8, 110u8, 116u8],
        vec![112u8, 114u8, 105u8, 110u8, 116u8, 108u8, 110u8],
    ];
    assert(names@.map_values(|n: Vec<u8>| n@) =~= default_names()) by {
        assert(names@[0]@ =~= default_names()[0]);
        assert(names@[1]@ =~= default_names()[1]);
        assert(names@[2]@ =~= default_names()[2]);
        assert(names@[3]@ =~= default_names()[3]);
        assert(names@[4]@ =~= default_names()[4]);
    }
    names
}

/// What a context is, to specifications.
pub struct ContextModel {
    /// Whether the default modules are installed.
    pub default_modules: bool,
    /// The names of the functions that the host provides.
    pub functions: Seq<Seq<u8>>,
}

/// The functions that the host provides to compiled units.
pub struct Context {
    default_modules: bool,
    functions: Vec<Vec<u8>>,
}

impl View for Context {
    type V = ContextModel;

    closed spec fn view(&self) -> ContextModel {
        ContextModel {
            default_modules: self.default_modules,
            functions: self.functions@.map_values(|n: Vec<u8>| n@),
        }
    }
}

impl Context {
    /// A context that provides nothing.
    pub fn new() -> (context: Context)
        ensures
            context@ == (ContextModel { default_modules: false, functions: Seq::empty() }),
    {
        let context = Context { default_modules: false, functions: Vec::new() };
        assert(context@.functions =~= Seq::empty());
        context
    }

    /// A context with the default modules installed.
    pub fn with_default_modules() -> (context: Context)
        ensures
            context@ == (ContextModel { default_modules: true, functions: default_names() }),
    {
        Context { default_modules: true, functions: default_name_list() }
    }

    /// Whether the default modules are installed.
    pub fn has_default_modules(&self) -> (installed: bool)
        ensures
            installed == self@.default_modules,
    {
        self.default_modules
    }

    /// Makes the host provide a function under `name`.
    pub fn install(&mut self, name: &[u8])
        ensures
            final(self)@ == (ContextModel {
                functions: old(self)@.functions.push(name@),
                ..old(self)@
            }),
    {
        self.functions.push(slice_to_vec(name));
        assert(self@.functions =~= old(self)@.functions.push(name@));
    }

    /// Whether the host provides a function under `name`.
    pub fn has_function(&self, name: &[u8]) -> (provided: bool)
        ensures
            provided == has_name(self@.functions, name@),
    {
        find_name(&self.functions, name).is_some()
    }
}

} // verus!
