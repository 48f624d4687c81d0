//! The service model: its methods and its middleware registry, built from
//! the annotated block; and the generator's arguments.
use vstd::prelude::*;
use crate::analyze::{is_record_of, method_error, rpc_from_method};
use crate::registry::{build_registry, is_registry_of, maps_onto, resolve_indices};
use crate::rpc::{declared_lists, texts, Rpc};
use crate::syntax::{ArgDesc, GenError, ImplDesc, ImplEntry};

verus! {

/// An annotated implementation block, analysed.
pub struct Service {
    /// Source text of the implementing type.
    pub implementor: String,
    /// The methods, in declaration order.
    pub methods: Vec<Rpc>,
    /// Every declared middleware once, sorted by canonical form.
    pub registry: Vec<String>,
}

impl Service {
    /// The registry is that of the methods, and each method's positions
    /// point at its declared middlewares.
    pub open spec fn wf(&self) -> bool {
        &&& is_registry_of(texts(self.registry@), declared_lists(self.methods@))
        &&& forall|i: int| 0 <= i < self.methods.len() ==>
            maps_onto((#[trigger] self.methods@[i]).global_indices@, self.methods@[i].declared(), texts(self.registry@))
    }
}

/// The two identifiers that configure generation.
pub struct GeneratorArgs {
    /// The service interface that the wrapper implements.
    pub service_trait: String,
    /// The server type whose `new` wraps the wrapper.
    pub server: String,
}

/// The error that an item of the block stops analysis at, if any.
pub open spec fn entry_error(e: ImplEntry, item: usize) -> Option<GenError> {
    match e {
        ImplEntry::Method(m) => method_error(m, item),
        ImplEntry::Macro => Some(GenError::MacroInBlock { item }),
        ImplEntry::Other => Some(GenError::NotAMethod { item }),
    }
}

/// The first error among the items of the block, in source order.
pub open spec fn entries_error(entries: Seq<ImplEntry>) -> Option<GenError>
    decreases entries.len(),
{
    if entries.len() == 0 {
        None
    } else {
        match entries_error(entries.drop_last()) {
            Some(e) => Some(e),
            None => entry_error(entries.last(), (entries.len() - 1) as usize),
        }
    }
}

/// The error that analysing the whole block stops at, if any.
pub open spec fn block_error(imp: ImplDesc) -> Option<GenError> {
    if imp.self_type is None {
        Some(GenError::SelfTypeNotPath)
    } else {
        entries_error(imp.entries@)
    }
}

/// `s` is the analysed form of block `imp`: one record per item, in order,
/// and the registry of their middlewares.
pub open spec fn is_service_of(s: Service, imp: ImplDesc) -> bool {
    &&& imp.self_type == Some(s.implementor)
    &&& s.methods.len() == imp.entries.len()
    &&& forall|i: int| 0 <= i < s.methods.len() ==>
        (#[trigger] imp.entries@[i] matches ImplEntry::Method(m) && is_record_of(s.methods@[i], m, i as usize))
    &&& s.wf()
}

proof fn lemma_entries_error_kept(entries: Seq<ImplEntry>, n: int)
    requires
        0 <= n <= entries.len(),
        entries_error(entries.take(n)) is Some,
    ensures
        entries_error(entries) == entries_error(entries.take(n)),
    decreases entries.len() - n,
{
    if n < entries.len() {
        assert(entries.take(n + 1).drop_last() =~= entries.take(n));
        lemma_entries_error_kept(entries, n + 1);
    } else {
        assert(entries.take(n) =~= entries);
    }
}

/// Analyses the annotated block: every item must be a well-formed method.
/// Builds the registry of their middlewares and maps each method onto it.
pub fn service_from_impl(imp: &ImplDesc) -> (r: Result<Service, GenError>)
    ensures
        r matches Ok(s) ==> block_error(*imp) is None && is_service_of(s, *imp),
        r matches Err(e) ==> block_error(*imp) == Some(e),
{
    let implementor = match &imp.self_type {
        Some(t) => t.clone(),
        None => return Err(GenError::SelfTypeNotPath),
    };
    assert(block_error(*imp) == entries_error(imp.entries@));
    let mut rpcs: Vec<Rpc> = Vec::new();
    let mut i: usize = 0;
    while i < imp.entries.len()
        invariant
            block_error(*imp) == entries_error(imp.entries@),
            i <= imp.entries.len(),
            rpcs.len() == i,
            entries_error(imp.entries@.take(i as int)) is None,
            forall|j: int| 0 <= j < i ==>
                (#[trigger] imp.entries@[j] matches ImplEntry::Method(m) && is_record_of(rpcs@[j], m, j as usize)),
        decreases imp.entries.len() - i,
    {
        proof {
            assert(imp.entries@.take(i + 1).drop_last() =~= imp.entries@.take(i as int));
            assert(imp.entries@.take(i + 1).last() == imp.entries@[i as int]);
            assert(entries_error(imp.entries@.take(i + 1)) == entry_error(imp.entries@[i as int], i));
        }
        match &imp.entries[i] {
            ImplEntry::Method(m) => {
                match rpc_from_method(m, i) {
                    Ok(x) => {
                        rpcs.push(x);
                    },
                    Err(e) => {
                        proof {
                            assert(imp.entries@[i as int] == ImplEntry::Method(*m));
                            assert(entries_error(imp.entries@.take(i + 1)) == Some(e));
                            lemma_entries_error_kept(imp.entries@, i + 1);
                        }
                        return Err(e);
                    },
                }
            },
            ImplEntry::Macro => {
                proof {
                    assert(imp.entries@[i as int] == ImplEntry::Macro);
                    assert(entries_error(imp.entries@.take(i + 1)) == Some(GenError::MacroInBlock { item: i }));
                    lemma_entries_error_kept(imp.entries@, i + 1);
                }
                return Err(GenError::MacroInBlock { item: i });
            },
            ImplEntry::Other => {
                proof {
                    lemma_entries_error_kept(imp.entries@, i + 1);
                }
                return Err(GenError::NotAMethod { item: i });
            },
        }
        i = i + 1;
    }
    proof {
        assert(imp.entries@.take(i as int) =~= imp.entries@);
    }
    let registry = build_registry(&rpcs);
    let ghost before = rpcs@;
    let methods = resolve_indices(rpcs, &registry);
    proof {
        assert(declared_lists(methods@) =~= declared_lists(before));
        assert forall|j: int| 0 <= j < methods.len() implies
            (#[trigger] imp.entries@[j] matches ImplEntry::Method(m) && is_record_of(methods@[j], m, j as usize)) by {
            assert(methods@[j].same_method(&before[j]));
        }
    }
    Ok(Service { implementor, methods, registry })
}

/// The identifier an argument names: the last segment of its path.
pub open spec fn arg_ident(a: ArgDesc, position: usize) -> Result<Seq<char>, GenError> {
    match a {
        ArgDesc::Path(segs) => {
            if segs@.len() == 0 {
                Err(GenError::ArgumentNotPath { position })
            } else {
                Ok(segs@.last()@)
            }
        },
        ArgDesc::Other => Err(GenError::ArgumentNotPath { position }),
    }
}

fn ident_of(a: &ArgDesc, position: usize) -> (r: Result<String, GenError>)
    ensures
        r matches Ok(t) ==> arg_ident(*a, position) == Ok::<Seq<char>, GenError>(t@),
        r matches Err(e) ==> arg_ident(*a, position) == Err::<Seq<char>, GenError>(e),
{
    match a {
        ArgDesc::Path(segs) => {
            if segs.len() == 0 {
                Err(GenError::ArgumentNotPath { position })
            } else {
                Ok(segs[segs.len() - 1].clone())
            }
        },
        ArgDesc::Other => Err(GenError::ArgumentNotPath { position }),
    }
}

/// The two identifiers the arguments name, or why they do not.
pub open spec fn args_result(args: Seq<ArgDesc>) -> Result<(Seq<char>, Seq<char>), GenError> {
    if args.len() != 2 {
        Err(GenError::ArgumentCount)
    } else {
        match (arg_ident(args[0], 0), arg_ident(args[1], 1)) {
            (Ok(t), Ok(s)) => Ok((t, s)),
            (Err(e), _) => Err(e),
            (Ok(_), Err(e)) => Err(e),
        }
    }
}

/// Reads the generator's two arguments: the service interface, then the
/// server type.
pub fn parse_args(args: &Vec<ArgDesc>) -> (r: Result<GeneratorArgs, GenError>)
    ensures
        r matches Ok(g) ==> args_result(args@) == Ok::<(Seq<char>, Seq<char>), GenError>((g.service_trait@, g.server@)),
        r matches Err(e) ==> args_result(args@) == Err::<(Seq<char>, Seq<char>), GenError>(e),
{
    if args.len() != 2 {
        return Err(GenError::ArgumentCount);
    }
    let service_trait = match ident_of(&args[0], 0) {
        Ok(t) => t,
        Err(e) => return Err(e),
    };
    let server = match ident_of(&args[1], 1) {
        Ok(t) => t,
        Err(e) => return Err(e),
    };
    Ok(GeneratorArgs { service_trait, server })
}

} // verus!
