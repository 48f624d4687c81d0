//! The per-method record of a service.
use vstd::prelude::*;

verus! {

/// The canonical forms held in a list of strings.
pub open spec fn texts(v: Seq<String>) -> Seq<Seq<char>> {
    v.map_values(|s: String| s@)
}

/// One method of a service, as the wrapper needs it.
pub struct Rpc {
    /// The method's name.
    pub name: String,
    /// Source text of the request type (the method's third parameter).
    pub request_type: String,
    /// Source text of the response type (first argument of the result type).
    pub response_type: String,
    /// Source text of the error type (second argument of the result type).
    pub error_type: String,
    /// Canonical forms of the middlewares declared on the method, in declared order.
    pub middlewares: Vec<String>,
    /// For each declared middleware, its position in the service's registry.
    pub global_indices: Vec<usize>,
    /// Source text of the method itself, its attributes left out.
    pub body: String,
}

impl Rpc {
    /// The declared middlewares as canonical forms.
    pub open spec fn declared(&self) -> Seq<Seq<char>> {
        texts(self.middlewares@)
    }

    /// The same method, whatever its registry positions.
    pub open spec fn same_method(&self, other: &Rpc) -> bool {
        &&& self.name@ == other.name@
        &&& self.request_type@ == other.request_type@
        &&& self.response_type@ == other.response_type@
        &&& self.error_type@ == other.error_type@
        &&& self.declared() == other.declared()
        &&& self.body@ == other.body@
    }
}

/// The declared middleware lists of a sequence of methods.
pub open spec fn declared_lists(rpcs: Seq<Rpc>) -> Seq<Seq<Seq<char>>> {
    rpcs.map_values(|r: Rpc| r.declared())
}

} // verus!
