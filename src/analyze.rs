//! Signature analysis and middleware extraction for one method.
use vstd::prelude::*;
use crate::canon::compare_canon;
use crate::rpc::{texts, Rpc};
use crate::syntax::{Attr, AttrMeta, FnParam, GenError, GenericArg, MethodDesc, NestedItem, PathArgs, ReturnDesc, TypeDesc};

verus! {

/// The request type: the text of the third parameter's type (the first two
/// being the receiver and the context slot).
pub open spec fn request_type_of(params: Seq<FnParam>, method: usize) -> Result<Seq<char>, GenError> {
    if params.len() < 3 {
        Err(GenError::RequestNotTyped { method })
    } else {
        match params[2] {
            FnParam::Typed(t) => Ok(t@),
            FnParam::Receiver => Err(GenError::RequestNotTyped { method }),
        }
    }
}

/// The response and error types: the two type arguments of the return
/// type's first segment.
pub open spec fn result_types_of(ret: ReturnDesc, method: usize) -> Result<(Seq<char>, Seq<char>), GenError> {
    match ret {
        ReturnDesc::Default => Err(GenError::MissingReturnType { method }),
        ReturnDesc::Type(TypeDesc::Other) => Err(GenError::ReturnNotPath { method }),
        ReturnDesc::Type(TypeDesc::Path(segs)) => {
            if segs@.len() == 0 {
                Err(GenError::ReturnNotResult { method })
            } else {
                match segs@[0] {
                    PathArgs::Angle(args) => {
                        if args@.len() != 2 {
                            Err(GenError::ReturnNotResult { method })
                        } else {
                            match (args@[0], args@[1]) {
                                (GenericArg::Type(a), GenericArg::Type(b)) => Ok((a@, b@)),
                                _ => Err(GenError::ResultArgNotType { method }),
                            }
                        }
                    },
                    _ => Err(GenError::ReturnNotResult { method }),
                }
            }
        },
    }
}

/// The middlewares named by the items of one `middleware` list, in order.
pub open spec fn listed_middlewares(items: Seq<NestedItem>, method: usize) -> Result<Seq<Seq<char>>, GenError>
    decreases items.len(),
{
    if items.len() == 0 {
        Ok(seq![])
    } else {
        match listed_middlewares(items.drop_last(), method) {
            Err(e) => Err(e),
            Ok(prev) => match items.last() {
                NestedItem::Meta(p) => Ok(prev.push(p@)),
                NestedItem::Literal => Err(GenError::MiddlewareNotPath { method }),
            },
        }
    }
}

/// The middlewares that one attribute declares: none unless its path is
/// `middleware`.
pub open spec fn attr_middlewares(a: Attr, method: usize) -> Result<Seq<Seq<char>>, GenError> {
    if a.path@ != "middleware"@ {
        Ok(seq![])
    } else {
        match a.meta {
            AttrMeta::List(items) => listed_middlewares(items@, method),
            _ => Err(GenError::MiddlewareNotList { method }),
        }
    }
}

/// The middlewares that a method's attributes declare, in textual order.
pub open spec fn declared_middlewares(attrs: Seq<Attr>, method: usize) -> Result<Seq<Seq<char>>, GenError>
    decreases attrs.len(),
{
    if attrs.len() == 0 {
        Ok(seq![])
    } else {
        match declared_middlewares(attrs.drop_last(), method) {
            Err(e) => Err(e),
            Ok(prev) => match attr_middlewares(attrs.last(), method) {
                Err(e) => Err(e),
                Ok(more) => Ok(prev + more),
            },
        }
    }
}

/// `r` is the record of method `m`, before registry positions are assigned.
pub open spec fn is_record_of(r: Rpc, m: MethodDesc, method: usize) -> bool {
    &&& request_type_of(m.params@, method) == Ok::<Seq<char>, GenError>(r.request_type@)
    &&& result_types_of(m.ret, method) == Ok::<(Seq<char>, Seq<char>), GenError>((r.response_type@, r.error_type@))
    &&& declared_middlewares(m.attrs@, method) == Ok::<Seq<Seq<char>>, GenError>(r.declared())
    &&& r.name@ == m.name@
    &&& r.body@ == m.body@
}

/// The error that analysing method `m` stops at, if any: the request type
/// first, then the return type, then the attributes.
pub open spec fn method_error(m: MethodDesc, method: usize) -> Option<GenError> {
    if request_type_of(m.params@, method) is Err {
        Some(request_type_of(m.params@, method)->Err_0)
    } else if result_types_of(m.ret, method) is Err {
        Some(result_types_of(m.ret, method)->Err_0)
    } else if declared_middlewares(m.attrs@, method) is Err {
        Some(declared_middlewares(m.attrs@, method)->Err_0)
    } else {
        None
    }
}

fn request_type(params: &Vec<FnParam>, method: usize) -> (r: Result<String, GenError>)
    ensures
        r matches Ok(t) ==> request_type_of(params@, method) == Ok::<Seq<char>, GenError>(t@),
        r matches Err(e) ==> request_type_of(params@, method) == Err::<Seq<char>, GenError>(e),
{
    if params.len() < 3 {
        return Err(GenError::RequestNotTyped { method });
    }
    match &params[2] {
        FnParam::Typed(t) => Ok(t.clone()),
        FnParam::Receiver => Err(GenError::RequestNotTyped { method }),
    }
}

fn result_types(ret: &ReturnDesc, method: usize) -> (r: Result<(String, String), GenError>)
    ensures
        r matches Ok(t) ==> result_types_of(*ret, method) == Ok::<(Seq<char>, Seq<char>), GenError>((t.0@, t.1@)),
        r matches Err(e) ==> result_types_of(*ret, method) == Err::<(Seq<char>, Seq<char>), GenError>(e),
{
    match ret {
        ReturnDesc::Default => Err(GenError::MissingReturnType { method }),
        ReturnDesc::Type(TypeDesc::Other) => Err(GenError::ReturnNotPath { method }),
        ReturnDesc::Type(TypeDesc::Path(segs)) => {
            if segs.len() == 0 {
                return Err(GenError::ReturnNotResult { method });
            }
            match &segs[0] {
                PathArgs::Angle(args) => {
                    if args.len() != 2 {
                        return Err(GenError::ReturnNotResult { method });
                    }
                    match (&args[0], &args[1]) {
                        (GenericArg::Type(a), GenericArg::Type(b)) => Ok((a.clone(), b.clone())),
                        _ => Err(GenError::ResultArgNotType { method }),
                    }
                },
                _ => Err(GenError::ReturnNotResult { method }),
            }
        },
    }
}

/// Appends the middlewares that attribute `a` declares to `acc`.
fn collect_attr_middlewares(a: &Attr, method: usize, acc: &mut Vec<String>) -> (r: Result<(), GenError>)
    ensures
        r matches Ok(_) ==> attr_middlewares(*a, method) matches Ok(more) && texts(final(acc)@) == texts(old(acc)@) + more,
        r matches Err(e) ==> attr_middlewares(*a, method) == Err::<Seq<Seq<char>>, GenError>(e),
{
    if compare_canon(a.path.as_str(), "middleware") != 0 {
        proof {
            assert(texts(acc@) =~= texts(acc@) + seq![]);
        }
        return Ok(());
    }
    match &a.meta {
        AttrMeta::List(items) => {
            let ghost start = texts(acc@);
            let mut k: usize = 0;
            while k < items.len()
                invariant
                    k <= items.len(),
                    attr_middlewares(*a, method) == listed_middlewares(items@, method),
                    listed_middlewares(items@.take(k as int), method) matches Ok(got) && texts(acc@) == start + got,
                decreases items.len() - k,
            {
                proof {
                    assert(items@.take(k + 1).drop_last() =~= items@.take(k as int));
                }
                match &items[k] {
                    NestedItem::Meta(p) => {
                        let ghost prev = acc@;
                        acc.push(p.clone());
                        proof {
                            assert(texts(acc@) =~= texts(prev).push(p@));
                            let got = listed_middlewares(items@.take(k as int), method)->Ok_0;
                            assert(texts(acc@) =~= start + got.push(p@));
                        }
                    },
                    NestedItem::Literal => {
                        proof {
                            lemma_listed_error_kept(items@, (k + 1) as int, method);
                        }
                        return Err(GenError::MiddlewareNotPath { method });
                    },
                }
                k = k + 1;
            }
            proof {
                assert(items@.take(k as int) =~= items@);
            }
            Ok(())
        },
        _ => Err(GenError::MiddlewareNotList { method }),
    }
}

proof fn lemma_listed_error_kept(items: Seq<NestedItem>, n: int, method: usize)
    requires
        0 <= n <= items.len(),
        listed_middlewares(items.take(n), method) is Err,
    ensures
        listed_middlewares(items, method) == listed_middlewares(items.take(n), method),
    decreases items.len() - n,
{
    if n < items.len() {
        assert(items.take(n + 1).drop_last() =~= items.take(n));
        lemma_listed_error_kept(items, n + 1, method);
    } else {
        assert(items.take(n) =~= items);
    }
}

proof fn lemma_declared_error_kept(attrs: Seq<Attr>, n: int, method: usize)
    requires
        0 <= n <= attrs.len(),
        declared_middlewares(attrs.take(n), method) is Err,
    ensures
        declared_middlewares(attrs, method) == declared_middlewares(attrs.take(n), method),
    decreases attrs.len() - n,
{
    if n < attrs.len() {
        assert(attrs.take(n + 1).drop_last() =~= attrs.take(n));
        lemma_declared_error_kept(attrs, n + 1, method);
    } else {
        assert(attrs.take(n) =~= attrs);
    }
}

/// The middlewares that a method's attributes declare, in textual order;
/// attributes not named `middleware` are passed over.
pub fn method_middlewares(attrs: &Vec<Attr>, method: usize) -> (r: Result<Vec<String>, GenError>)
    ensures
        r matches Ok(v) ==> declared_middlewares(attrs@, method) == Ok::<Seq<Seq<char>>, GenError>(texts(v@)),
        r matches Err(e) ==> declared_middlewares(attrs@, method) == Err::<Seq<Seq<char>>, GenError>(e),
{
    let mut acc: Vec<String> = Vec::new();
    let mut k: usize = 0;
    proof {
        assert(texts(acc@) =~= seq![]);
    }
    while k < attrs.len()
        invariant
            k <= attrs.len(),
            declared_middlewares(attrs@.take(k as int), method) == Ok::<Seq<Seq<char>>, GenError>(texts(acc@)),
        decreases attrs.len() - k,
    {
        proof {
            assert(attrs@.take(k + 1).drop_last() =~= attrs@.take(k as int));
        }
        let res = collect_attr_middlewares(&attrs[k], method, &mut acc);
        if let Err(e) = res {
            proof {
                lemma_declared_error_kept(attrs@, (k + 1) as int, method);
            }
            return Err(e);
        }
        k = k + 1;
    }
    proof {
        assert(attrs@.take(k as int) =~= attrs@);
    }
    Ok(acc)
}

/// Builds the record of one method (registry positions still empty), or
/// the first reason the method is malformed.
pub fn rpc_from_method(m: &MethodDesc, method: usize) -> (r: Result<Rpc, GenError>)
    ensures
        r matches Ok(x) ==> method_error(*m, method) is None && is_record_of(x, *m, method)
            && x.global_indices@.len() == 0,
        r matches Err(e) ==> method_error(*m, method) == Some(e),
{
    let request_type = match request_type(&m.params, method) {
        Ok(t) => t,
        Err(e) => return Err(e),
    };
    let (response_type, error_type) = match result_types(&m.ret, method) {
        Ok(t) => t,
        Err(e) => return Err(e),
    };
    let middlewares = match method_middlewares(&m.attrs, method) {
        Ok(v) => v,
        Err(e) => return Err(e),
    };
    Ok(Rpc {
        name: m.name.clone(),
        request_type,
        response_type,
        error_type,
        middlewares,
        global_indices: Vec::new(),
        body: m.body.clone(),
    })
}

} // verus!
