//! Emission of the wrapper's source text.
use vstd::prelude::*;
use crate::plan::{call_steps, steps_of, Step};
use crate::rpc::{texts, Rpc};
use crate::service::{GeneratorArgs, Service};
use crate::text::{concat, decimal, decimal_string, lemma_concat_all, lemma_concat_take};

verus! {

/// The wrapper field that holds the middleware at registry position `i`.
pub open spec fn field_name(i: nat) -> Seq<char> {
    "md_"@ + decimal(i)
}

/// The entry for middleware `i` in a method's context record.
pub open spec fn context_entry(i: usize) -> Seq<char> {
    "&mut "@ + field_name(i as nat) + ", "@
}

/// The context record of a method whose middlewares sit at positions `gi`:
/// a tuple with one entry per middleware, in declared order.
pub open spec fn context_text(gi: Seq<usize>) -> Seq<char> {
    "("@ + concat(gi.map_values(|i: usize| context_entry(i))) + ")"@
}

/// The text of one statement of method `name`, whose context record is `ctx`.
pub open spec fn step_text(s: Step, name: Seq<char>, ctx: Seq<char>) -> Seq<char> {
    match s {
        Step::Before(i) => "let mut "@ + field_name(i as nat) + " = self."@ + field_name(i as nat)
            + ".before(&request).await.map_err(|e| ::tonic::Status::from(e))?;\n"@,
        Step::Invoke => "let envs = "@ + ctx + ";\nlet ret = self.service_impl."@ + name
            + "(envs, request).await.map_err(|e| e.into());\n"@,
        Step::After(i) => "self."@ + field_name(i as nat) + ".after("@ + field_name(i as nat) + ", &ret).await;\n"@,
    }
}

/// The interface method that the wrapper implements for `r`.
pub open spec fn method_text(r: Rpc) -> Seq<char> {
    let gi = r.global_indices@;
    "async fn "@ + r.name@ + "(&self, request: "@ + r.request_type@ + ") -> ::core::result::Result<"@
        + r.response_type@ + ", ::tonic::Status> {\n"@
        + concat(steps_of(gi).map_values(|s: Step| step_text(s, r.name@, context_text(gi))))
        + "ret\n}\n"@
}

/// The wrapper type's name.
pub open spec fn wrapper_name(implementor: Seq<char>) -> Seq<char> {
    implementor + "TMProcMacroMiddlewareWrapper"@
}

/// One field declaration per registry entry.
pub open spec fn field_decls(reg: Seq<Seq<char>>) -> Seq<char> {
    concat(Seq::new(reg.len(), |i: int| field_name(i as nat) + ": "@ + reg[i] + ",\n"@))
}

/// One constructor parameter per registry entry.
pub open spec fn ctor_params(reg: Seq<Seq<char>>) -> Seq<char> {
    concat(Seq::new(reg.len(), |i: int| field_name(i as nat) + ": "@ + reg[i] + ", "@))
}

/// One field initialiser per registry entry.
pub open spec fn ctor_inits(reg: Seq<Seq<char>>) -> Seq<char> {
    concat(Seq::new(reg.len(), |i: int| field_name(i as nat) + ",\n"@))
}

/// The wrapper type: the implementation, then one field per registry entry.
pub open spec fn struct_text(s: Service) -> Seq<char> {
    "/// Middleware wrapper\npub struct "@ + wrapper_name(s.implementor@) + " {\nservice_impl: "@ + s.implementor@
        + ",\n"@ + field_decls(texts(s.registry@)) + "}\n"@
}

/// The interface implementation: one method per method of the service.
pub open spec fn trait_impl_text(g: GeneratorArgs, s: Service) -> Seq<char> {
    "#[::tonic::async_trait]\nimpl "@ + g.service_trait@ + " for "@ + wrapper_name(s.implementor@) + " {\n"@
        + concat(s.methods@.map_values(|r: Rpc| method_text(r))) + "}\n"@
}

/// The constructor: the implementation and one middleware per registry
/// entry, in registry order, wrapped in the server type.
pub open spec fn ctor_text(g: GeneratorArgs, s: Service) -> Seq<char> {
    let w = wrapper_name(s.implementor@);
    "impl "@ + s.implementor@ + " {\npub fn to_service_middleware(self, "@ + ctor_params(texts(s.registry@))
        + ") -> "@ + g.server@ + "<"@ + w + "> {\n"@ + g.server@ + "::new("@ + w
        + " {\nservice_impl: self,\n"@ + ctor_inits(texts(s.registry@)) + "})\n}\n}\n"@
}

/// The service's own methods, kept under the implementing type.
pub open spec fn bodies_text(s: Service) -> Seq<char> {
    "impl "@ + s.implementor@ + " {\n"@ + concat(s.methods@.map_values(|r: Rpc| r.body@ + "\n"@)) + "}\n"@
}

/// Everything generated for service `s`.
pub open spec fn service_text(g: GeneratorArgs, s: Service) -> Seq<char> {
    struct_text(s) + trait_impl_text(g, s) + ctor_text(g, s) + bodies_text(s)
}

fn field_name_string(i: usize) -> (r: String)
    ensures
        r@ == field_name(i as nat),
{
    let mut r = String::from_str("md_");
    let d = decimal_string(i);
    r.append(d.as_str());
    r
}

/// The context record of a method.
pub fn context_string(gi: &Vec<usize>) -> (r: String)
    ensures
        r@ == context_text(gi@),
{
    let ghost p = gi@.map_values(|i: usize| context_entry(i));
    let mut r = String::from_str("(");
    let mut k: usize = 0;
    proof {
        lemma_concat_all(p);
    }
    while k < gi.len()
        invariant
            p == gi@.map_values(|i: usize| context_entry(i)),
            k <= gi.len(),
            r@ == "("@ + concat(p.take(k as int)),
        decreases gi.len() - k,
    {
        proof {
            lemma_concat_take(p, k as int);
        }
        r.append("&mut ");
        let f = field_name_string(gi[k]);
        r.append(f.as_str());
        r.append(", ");
        k = k + 1;
    }
    proof {
        lemma_concat_all(p);
    }
    r.append(")");
    r
}

fn step_string(s: Step, name: &String, ctx: &String) -> (r: String)
    ensures
        r@ == step_text(s, name@, ctx@),
{
    match s {
        Step::Before(i) => {
            let f = field_name_string(i);
            let mut r = String::from_str("let mut ");
            r.append(f.as_str());
            r.append(" = self.");
            r.append(f.as_str());
            r.append(".before(&request).await.map_err(|e| ::tonic::Status::from(e))?;\n");
            r
        },
        Step::Invoke => {
            let mut r = String::from_str("let envs = ");
            r.append(ctx.as_str());
            r.append(";\nlet ret = self.service_impl.");
            r.append(name.as_str());
            r.append("(envs, request).await.map_err(|e| e.into());\n");
            r
        },
        Step::After(i) => {
            let f = field_name_string(i);
            let mut r = String::from_str("self.");
            r.append(f.as_str());
            r.append(".after(");
            r.append(f.as_str());
            r.append(", &ret).await;\n");
            r
        },
    }
}

/// The interface method that the wrapper implements for one method: each
/// pre-hook in declared order, the real call with the context record, each
/// post-hook in declared order, then the call's result.
pub fn method_string(rpc: &Rpc) -> (r: String)
    ensures
        r@ == method_text(*rpc),
{
    let gi = &rpc.global_indices;
    let steps = call_steps(gi);
    let ctx = context_string(gi);
    let ghost p = steps@.map_values(|s: Step| step_text(s, rpc.name@, context_text(gi@)));
    let mut r = String::from_str("async fn ");
    r.append(rpc.name.as_str());
    r.append("(&self, request: ");
    r.append(rpc.request_type.as_str());
    r.append(") -> ::core::result::Result<");
    r.append(rpc.response_type.as_str());
    r.append(", ::tonic::Status> {\n");
    let ghost head = r@;
    let mut k: usize = 0;
    proof {
        lemma_concat_all(p);
    }
    while k < steps.len()
        invariant
            p == steps@.map_values(|s: Step| step_text(s, rpc.name@, context_text(gi@))),
            ctx@ == context_text(gi@),
            k <= steps.len(),
            r@ == head + concat(p.take(k as int)),
        decreases steps.len() - k,
    {
        proof {
            lemma_concat_take(p, k as int);
        }
        let t = step_string(steps[k], &rpc.name, &ctx);
        r.append(t.as_str());
        k = k + 1;
    }
    proof {
        lemma_concat_all(p);
    }
    r.append("ret\n}\n");
    r
}

fn wrapper_string(implementor: &String) -> (r: String)
    ensures
        r@ == wrapper_name(implementor@),
{
    let mut r = implementor.clone();
    r.append("TMProcMacroMiddlewareWrapper");
    r
}

/// The wrapper type of a service.
pub fn struct_string(s: &Service) -> (r: String)
    ensures
        r@ == struct_text(*s),
{
    let reg = &s.registry;
    let ghost t = texts(reg@);
    let ghost p = Seq::new(t.len(), |i: int| field_name(i as nat) + ": "@ + t[i] + ",\n"@);
    let mut r = String::from_str("/// Middleware wrapper\npub struct ");
    let w = wrapper_string(&s.implementor);
    r.append(w.as_str());
    r.append(" {\nservice_impl: ");
    r.append(s.implementor.as_str());
    r.append(",\n");
    let ghost head = r@;
    let mut k: usize = 0;
    proof {
        lemma_concat_all(p);
    }
    while k < reg.len()
        invariant
            t == texts(reg@),
            p == Seq::new(t.len(), |i: int| field_name(i as nat) + ": "@ + t[i] + ",\n"@),
            k <= reg.len(),
            r@ == head + concat(p.take(k as int)),
        decreases reg.len() - k,
    {
        proof {
            lemma_concat_take(p, k as int);
        }
        let f = field_name_string(k);
        r.append(f.as_str());
        r.append(": ");
        r.append(reg[k].as_str());
        r.append(",\n");
        k = k + 1;
    }
    proof {
        lemma_concat_all(p);
    }
    r.append("}\n");
    r
}

/// The interface implementation of a service.
pub fn trait_impl_string(g: &GeneratorArgs, s: &Service) -> (r: String)
    ensures
        r@ == trait_impl_text(*g, *s),
{
    let ghost p = s.methods@.map_values(|r: Rpc| method_text(r));
    let mut r = String::from_str("#[::tonic::async_trait]\nimpl ");
    r.append(g.service_trait.as_str());
    r.append(" for ");
    let w = wrapper_string(&s.implementor);
    r.append(w.as_str());
    r.append(" {\n");
    let ghost head = r@;
    let mut k: usize = 0;
    proof {
        lemma_concat_all(p);
    }
    while k < s.methods.len()
        invariant
            p == s.methods@.map_values(|r: Rpc| method_text(r)),
            k <= s.methods.len(),
            r@ == head + concat(p.take(k as int)),
        decreases s.methods.len() - k,
    {
        proof {
            lemma_concat_take(p, k as int);
        }
        let m = method_string(&s.methods[k]);
        r.append(m.as_str());
        k = k + 1;
    }
    proof {
        lemma_concat_all(p);
    }
    r.append("}\n");
    r
}

/// The constructor of a service's wrapper.
pub fn ctor_string(g: &GeneratorArgs, s: &Service) -> (r: String)
    ensures
        r@ == ctor_text(*g, *s),
{
    let reg = &s.registry;
    let ghost t = texts(reg@);
    let ghost p = Seq::new(t.len(), |i: int| field_name(i as nat) + ": "@ + t[i] + ", "@);
    let ghost q = Seq::new(t.len(), |i: int| field_name(i as nat) + ",\n"@);
    let w = wrapper_string(&s.implementor);
    let mut r = String::from_str("impl ");
    r.append(s.implementor.as_str());
    r.append(" {\npub fn to_service_middleware(self, ");
    let ghost head = r@;
    let mut k: usize = 0;
    proof {
        lemma_concat_all(p);
    }
    while k < reg.len()
        invariant
            t == texts(reg@),
            p == Seq::new(t.len(), |i: int| field_name(i as nat) + ": "@ + t[i] + ", "@),
            k <= reg.len(),
            r@ == head + concat(p.take(k as int)),
        decreases reg.len() - k,
    {
        proof {
            lemma_concat_take(p, k as int);
        }
        let f = field_name_string(k);
        r.append(f.as_str());
        r.append(": ");
        r.append(reg[k].as_str());
        r.append(", ");
        k = k + 1;
    }
    proof {
        lemma_concat_all(p);
    }
    r.append(") -> ");
    r.append(g.server.as_str());
    r.append("<");
    r.append(w.as_str());
    r.append("> {\n");
    r.append(g.server.as_str());
    r.append("::new(");
    r.append(w.as_str());
    r.append(" {\nservice_impl: self,\n");
    let ghost head2 = r@;
    let mut k: usize = 0;
    proof {
        lemma_concat_all(q);
    }
    while k < reg.len()
        invariant
            t == texts(reg@),
            q == Seq::new(t.len(), |i: int| field_name(i as nat) + ",\n"@),
            k <= reg.len(),
            r@ == head2 + concat(q.take(k as int)),
        decreases reg.len() - k,
    {
        proof {
            lemma_concat_take(q, k as int);
        }
        let f = field_name_string(k);
        r.append(f.as_str());
        r.append(",\n");
        k = k + 1;
    }
    proof {
        lemma_concat_all(q);
    }
    r.append("})\n}\n}\n");
    r
}

/// The service's own methods, under its implementing type.
pub fn bodies_string(s: &Service) -> (r: String)
    ensures
        r@ == bodies_text(*s),
{
    let ghost p = s.methods@.map_values(|r: Rpc| r.body@ + "\n"@);
    let mut r = String::from_str("impl ");
    r.append(s.implementor.as_str());
    r.append(" {\n");
    let ghost head = r@;
    let mut k: usize = 0;
    proof {
        lemma_concat_all(p);
    }
    while k < s.methods.len()
        invariant
            p == s.methods@.map_values(|r: Rpc| r.body@ + "\n"@),
            k <= s.methods.len(),
            r@ == head + concat(p.take(k as int)),
        decreases s.methods.len() - k,
    {
        proof {
            lemma_concat_take(p, k as int);
        }
        r.append(s.methods[k].body.as_str());
        r.append("\n");
        k = k + 1;
    }
    proof {
        lemma_concat_all(p);
    }
    r.append("}\n");
    r
}

/// Everything generated for a service: the wrapper type, its interface
/// implementation, its constructor and the service's own methods.
pub fn emit_service(g: &GeneratorArgs, s: &Service) -> (r: String)
    ensures
        r@ == service_text(*g, *s),
{
    let mut r = struct_string(s);
    let t = trait_impl_string(g, s);
    r.append(t.as_str());
    let c = ctor_string(g, s);
    r.append(c.as_str());
    let b = bodies_string(s);
    r.append(b.as_str());
    r
}

} // verus!
