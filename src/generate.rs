//! The whole generation: arguments, analysis, emission.
use vstd::prelude::*;
use crate::emit::{emit_service, service_text};
use crate::service::{args_result, block_error, entries_error, entry_error, is_service_of, parse_args, service_from_impl, GeneratorArgs, Service};
use crate::analyze::method_error;
use crate::syntax::{ArgDesc, GenError, ImplDesc, ImplEntry};

verus! {

/// Generates the wrapper for an annotated block: the arguments are read
/// first, then the block is analysed; any malformed part fails the whole
/// generation, and nothing partial is produced.
pub fn generate(args: &Vec<ArgDesc>, imp: &ImplDesc) -> (r: Result<String, GenError>)
    ensures
        args_result(args@) matches Err(e) ==> r == Err::<String, GenError>(e),
        args_result(args@) is Ok ==> (block_error(*imp) matches Some(e) ==> r == Err::<String, GenError>(e)),
        args_result(args@) is Ok && block_error(*imp) is None ==> r is Ok,
        r matches Ok(t) ==> exists|g: GeneratorArgs, s: Service|
            args_result(args@) == Ok::<(Seq<char>, Seq<char>), GenError>((g.service_trait@, g.server@))
            && #[trigger] is_service_of(s, *imp) && t@ == #[trigger] service_text(g, s),
{
    let g = match parse_args(args) {
        Ok(g) => g,
        Err(e) => return Err(e),
    };
    let s = match service_from_impl(imp) {
        Ok(s) => s,
        Err(e) => return Err(e),
    };
    let t = emit_service(&g, &s);
    proof {
        assert(is_service_of(s, *imp) && t@ == service_text(g, s));
    }
    Ok(t)
}

proof fn lemma_entries_error_none(entries: Seq<ImplEntry>, j: int)
    requires
        entries_error(entries) is None,
        0 <= j < entries.len(),
    ensures
        entry_error(entries[j], j as usize) is None,
    decreases entries.len(),
{
    if j < entries.len() - 1 {
        lemma_entries_error_none(entries.drop_last(), j);
    }
}

/// A block with a malformed method (say, one whose return type is not a
/// two-argument result type) cannot be generated: the analysis fails, and
/// so does `generate`.
pub proof fn law_malformed_method_fails(imp: ImplDesc, j: int)
    requires
        0 <= j < imp.entries.len(),
        imp.entries@[j] matches ImplEntry::Method(m) && method_error(m, j as usize) is Some,
    ensures
        block_error(imp) is Some,
{
    if imp.self_type is Some && entries_error(imp.entries@) is None {
        lemma_entries_error_none(imp.entries@, j);
    }
}

} // verus!
