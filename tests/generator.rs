use tonic_middleware::analyze::{method_middlewares, rpc_from_method};
use tonic_middleware::canon::compare_canon;
use tonic_middleware::emit::{context_string, emit_service, method_string};
use tonic_middleware::generate::generate;
use tonic_middleware::plan::{call_steps, Step};
use tonic_middleware::registry::{build_registry, registry_indices, resolve_indices};
use tonic_middleware::rpc::Rpc;
use tonic_middleware::service::{parse_args, service_from_impl, GeneratorArgs, Service};
use tonic_middleware::syntax::{
    ArgDesc, Attr, AttrMeta, FnParam, GenError, GenericArg, ImplDesc, ImplEntry, MethodDesc,
    NestedItem, PathArgs, ReturnDesc, TypeDesc,
};
use tonic_middleware::text::decimal_string;

fn s(t: &str) -> String {
    t.to_string()
}

fn result_ret(resp: &str, err: &str) -> ReturnDesc {
    ReturnDesc::Type(TypeDesc::Path(vec![PathArgs::Angle(vec![
        GenericArg::Type(s(resp)),
        GenericArg::Type(s(err)),
    ])]))
}

fn mw_attr(paths: &[&str]) -> Attr {
    Attr {
        path: s("middleware"),
        meta: AttrMeta::List(paths.iter().map(|p| NestedItem::Meta(s(p))).collect()),
    }
}

fn method(name: &str, mws: &[&str]) -> MethodDesc {
    MethodDesc {
        name: s(name),
        params: vec![
            FnParam::Receiver,
            FnParam::Typed(s("_")),
            FnParam::Typed(format!("Request<{}Req>", name)),
        ],
        ret: result_ret(&format!("Response<{}Reply>", name), "Status"),
        attrs: vec![mw_attr(mws)],
        body: format!("async fn {}(&self) {{}}", name),
    }
}

fn block(methods: Vec<MethodDesc>) -> ImplDesc {
    ImplDesc {
        self_type: Some(s("Svc")),
        entries: methods.into_iter().map(ImplEntry::Method).collect(),
    }
}

fn args() -> Vec<ArgDesc> {
    vec![
        ArgDesc::Path(vec![s("pb"), s("Greeter")]),
        ArgDesc::Path(vec![s("GreeterServer")]),
    ]
}

fn analysed(methods: Vec<MethodDesc>) -> Service {
    service_from_impl(&block(methods)).ok().unwrap()
}

#[test]
fn registry_is_sorted_without_duplicates() {
    let svc = analysed(vec![
        method("a", &["crate::Log", "crate::Auth"]),
        method("b", &["crate::Auth", "Metrics"]),
        method("c", &[]),
    ]);
    assert_eq!(svc.registry, vec![s("Metrics"), s("crate::Auth"), s("crate::Log")]);
}

#[test]
fn registry_ignores_declaration_order() {
    let one = analysed(vec![
        method("a", &["crate::Log", "crate::Auth"]),
        method("b", &["crate::Auth", "Metrics"]),
    ]);
    let two = analysed(vec![
        method("b", &["Metrics", "crate::Auth"]),
        method("a", &["crate::Auth", "crate::Log"]),
    ]);
    assert_eq!(one.registry, two.registry);
}

#[test]
fn hooks_follow_declared_order_not_registry_order() {
    let svc = analysed(vec![method("a", &["crate::Log", "crate::Auth"])]);
    assert_eq!(svc.methods[0].global_indices, vec![1, 0]);
    assert_eq!(
        call_steps(&svc.methods[0].global_indices),
        vec![Step::Before(1), Step::Before(0), Step::Invoke, Step::After(1), Step::After(0)]
    );
    let text = method_string(&svc.methods[0]);
    let pos = |p: &str| text.find(p).unwrap();
    assert!(pos("self.md_1.before") < pos("self.md_0.before"));
    assert!(pos("self.md_0.before") < pos("self.service_impl.a"));
    assert!(pos("self.service_impl.a") < pos("self.md_1.after"));
    assert!(pos("self.md_1.after") < pos("self.md_0.after"));
}

#[test]
fn reordering_a_method_reorders_only_its_hooks() {
    let one = analysed(vec![method("a", &["X", "Y"]), method("b", &["Y"])]);
    let two = analysed(vec![method("a", &["Y", "X"]), method("b", &["Y"])]);
    assert_eq!(one.registry, two.registry);
    assert_eq!(one.methods[0].global_indices, vec![0, 1]);
    assert_eq!(two.methods[0].global_indices, vec![1, 0]);
    assert_eq!(one.methods[1].global_indices, two.methods[1].global_indices);
}

#[test]
fn same_middleware_same_index_on_every_method() {
    let svc = analysed(vec![
        method("a", &["Z", "shared::Auth"]),
        method("b", &["shared::Auth"]),
        method("c", &["A", "shared::Auth"]),
    ]);
    assert_eq!(svc.registry, vec![s("A"), s("Z"), s("shared::Auth")]);
    assert_eq!(svc.methods[0].global_indices[1], 2);
    assert_eq!(svc.methods[1].global_indices[0], 2);
    assert_eq!(svc.methods[2].global_indices[1], 2);
}

#[test]
fn pre_hook_failure_returns_at_once() {
    let svc = analysed(vec![method("a", &["Auth"])]);
    let text = method_string(&svc.methods[0]);
    assert_eq!(
        text,
        "async fn a(&self, request: Request<aReq>) -> ::core::result::Result<Response<aReply>, ::tonic::Status> {\n\
         let mut md_0 = self.md_0.before(&request).await.map_err(|e| ::tonic::Status::from(e))?;\n\
         let envs = (&mut md_0, );\n\
         let ret = self.service_impl.a(envs, request).await.map_err(|e| e.into());\n\
         self.md_0.after(md_0, &ret).await;\n\
         ret\n}\n"
    );
}

#[test]
fn no_middleware_is_a_direct_call() {
    let svc = analysed(vec![method("ping", &[])]);
    assert_eq!(call_steps(&svc.methods[0].global_indices), vec![Step::Invoke]);
    assert_eq!(context_string(&vec![]), "()");
    assert_eq!(
        method_string(&svc.methods[0]),
        "async fn ping(&self, request: Request<pingReq>) -> ::core::result::Result<Response<pingReply>, ::tonic::Status> {\n\
         let envs = ();\n\
         let ret = self.service_impl.ping(envs, request).await.map_err(|e| e.into());\n\
         ret\n}\n"
    );
}

#[test]
fn context_record_is_a_tuple_in_declared_order() {
    assert_eq!(context_string(&vec![3, 0]), "(&mut md_3, &mut md_0, )");
}

#[test]
fn whole_output_of_a_small_service() {
    let svc = analysed(vec![method("a", &["Log"])]);
    let g = GeneratorArgs { service_trait: s("Greeter"), server: s("GreeterServer") };
    let text = emit_service(&g, &svc);
    let expected = String::new()
        + "/// Middleware wrapper\npub struct SvcTMProcMacroMiddlewareWrapper {\nservice_impl: Svc,\nmd_0: Log,\n}\n"
        + "#[::tonic::async_trait]\nimpl Greeter for SvcTMProcMacroMiddlewareWrapper {\n"
        + &method_string(&svc.methods[0])
        + "}\n"
        + "impl Svc {\npub fn to_service_middleware(self, md_0: Log, ) -> GreeterServer<SvcTMProcMacroMiddlewareWrapper> {\n"
        + "GreeterServer::new(SvcTMProcMacroMiddlewareWrapper {\nservice_impl: self,\nmd_0,\n})\n}\n}\n"
        + "impl Svc {\nasync fn a(&self) {}\n}\n";
    assert_eq!(text, expected);
}

#[test]
fn empty_service_is_degenerate_not_rejected() {
    let text = generate(&args(), &block(vec![])).unwrap();
    assert_eq!(
        text,
        "/// Middleware wrapper\npub struct SvcTMProcMacroMiddlewareWrapper {\nservice_impl: Svc,\n}\n\
         #[::tonic::async_trait]\nimpl Greeter for SvcTMProcMacroMiddlewareWrapper {\n}\n\
         impl Svc {\npub fn to_service_middleware(self, ) -> GreeterServer<SvcTMProcMacroMiddlewareWrapper> {\n\
         GreeterServer::new(SvcTMProcMacroMiddlewareWrapper {\nservice_impl: self,\n})\n}\n}\n\
         impl Svc {\n}\n"
    );
}

#[test]
fn generate_succeeds_on_a_well_formed_block() {
    let text = generate(&args(), &block(vec![method("a", &["Log"]), method("b", &[])])).unwrap();
    assert!(text.contains("impl Greeter for SvcTMProcMacroMiddlewareWrapper"));
    assert!(text.contains("fn to_service_middleware(self, md_0: Log, )"));
}

#[test]
fn return_type_without_two_arguments_fails() {
    let mut m = method("a", &[]);
    m.ret = ReturnDesc::Type(TypeDesc::Path(vec![PathArgs::Angle(vec![GenericArg::Type(s("T"))])]));
    assert_eq!(generate(&args(), &block(vec![m])), Err(GenError::ReturnNotResult { method: 0 }));
}

#[test]
fn bare_return_path_fails() {
    let mut m = method("a", &[]);
    m.ret = ReturnDesc::Type(TypeDesc::Path(vec![PathArgs::Bare]));
    assert_eq!(rpc_from_method(&m, 4).err(), Some(GenError::ReturnNotResult { method: 4 }));
}

#[test]
fn missing_return_type_fails() {
    let mut m = method("a", &[]);
    m.ret = ReturnDesc::Default;
    assert_eq!(rpc_from_method(&m, 0).err(), Some(GenError::MissingReturnType { method: 0 }));
}

#[test]
fn non_path_return_type_fails() {
    let mut m = method("a", &[]);
    m.ret = ReturnDesc::Type(TypeDesc::Other);
    assert_eq!(rpc_from_method(&m, 1).err(), Some(GenError::ReturnNotPath { method: 1 }));
}

#[test]
fn non_type_result_argument_fails() {
    let mut m = method("a", &[]);
    m.ret = ReturnDesc::Type(TypeDesc::Path(vec![PathArgs::Angle(vec![
        GenericArg::Type(s("T")),
        GenericArg::Other,
    ])]));
    assert_eq!(rpc_from_method(&m, 0).err(), Some(GenError::ResultArgNotType { method: 0 }));
}

#[test]
fn missing_request_parameter_fails() {
    let mut m = method("a", &[]);
    m.params.truncate(2);
    assert_eq!(rpc_from_method(&m, 2).err(), Some(GenError::RequestNotTyped { method: 2 }));
}

#[test]
fn receiver_as_request_parameter_fails() {
    let mut m = method("a", &[]);
    m.params[2] = FnParam::Receiver;
    assert_eq!(rpc_from_method(&m, 0).err(), Some(GenError::RequestNotTyped { method: 0 }));
}

#[test]
fn request_error_comes_before_return_error() {
    let mut m = method("a", &[]);
    m.params.truncate(1);
    m.ret = ReturnDesc::Default;
    assert_eq!(rpc_from_method(&m, 0).err(), Some(GenError::RequestNotTyped { method: 0 }));
}

#[test]
fn middleware_attribute_must_be_a_list() {
    let mut m = method("a", &[]);
    m.attrs = vec![Attr { path: s("middleware"), meta: AttrMeta::NameValue }];
    assert_eq!(rpc_from_method(&m, 0).err(), Some(GenError::MiddlewareNotList { method: 0 }));
}

#[test]
fn middleware_entries_must_be_paths() {
    let mut m = method("a", &[]);
    m.attrs = vec![Attr {
        path: s("middleware"),
        meta: AttrMeta::List(vec![NestedItem::Meta(s("A")), NestedItem::Literal]),
    }];
    assert_eq!(rpc_from_method(&m, 0).err(), Some(GenError::MiddlewareNotPath { method: 0 }));
}

#[test]
fn other_attributes_are_ignored_and_lists_concatenate() {
    let attrs = vec![
        mw_attr(&["B"]),
        Attr { path: s("doc"), meta: AttrMeta::NameValue },
        Attr { path: s("allow"), meta: AttrMeta::Unparsed },
        mw_attr(&["A", "B"]),
    ];
    assert_eq!(method_middlewares(&attrs, 0), Ok(vec![s("B"), s("A"), s("B")]));
}

#[test]
fn repeated_middleware_on_one_method_maps_twice() {
    let svc = analysed(vec![method("a", &["B", "A", "B"])]);
    assert_eq!(svc.registry, vec![s("A"), s("B")]);
    assert_eq!(svc.methods[0].global_indices, vec![1, 0, 1]);
}

#[test]
fn block_errors() {
    let no_self = ImplDesc { self_type: None, entries: vec![] };
    assert_eq!(service_from_impl(&no_self).err(), Some(GenError::SelfTypeNotPath));
    let with_macro = ImplDesc {
        self_type: Some(s("Svc")),
        entries: vec![ImplEntry::Method(method("a", &[])), ImplEntry::Macro],
    };
    assert_eq!(service_from_impl(&with_macro).err(), Some(GenError::MacroInBlock { item: 1 }));
    let with_const = ImplDesc { self_type: Some(s("Svc")), entries: vec![ImplEntry::Other] };
    assert_eq!(service_from_impl(&with_const).err(), Some(GenError::NotAMethod { item: 0 }));
}

#[test]
fn argument_errors() {
    assert_eq!(parse_args(&vec![ArgDesc::Path(vec![s("A")])]).err(), Some(GenError::ArgumentCount));
    assert_eq!(
        parse_args(&vec![ArgDesc::Path(vec![s("A")]), ArgDesc::Other]).err(),
        Some(GenError::ArgumentNotPath { position: 1 })
    );
    assert_eq!(
        parse_args(&vec![ArgDesc::Other, ArgDesc::Other]).err(),
        Some(GenError::ArgumentNotPath { position: 0 })
    );
    assert_eq!(generate(&vec![], &block(vec![])), Err(GenError::ArgumentCount));
}

#[test]
fn arguments_take_the_last_segment() {
    let g = parse_args(&args()).ok().unwrap();
    assert_eq!(g.service_trait, "Greeter");
    assert_eq!(g.server, "GreeterServer");
}

#[test]
fn registry_helpers_on_plain_lists() {
    let rpcs = vec![
        rpc_from_method(&method("a", &["b", "a"]), 0).ok().unwrap(),
        rpc_from_method(&method("b", &["c", "a"]), 1).ok().unwrap(),
    ];
    let reg = build_registry(&rpcs);
    assert_eq!(reg, vec![s("a"), s("b"), s("c")]);
    assert_eq!(registry_indices(&vec![s("c"), s("a")], &reg), vec![2, 0]);
    let resolved: Vec<Rpc> = resolve_indices(rpcs, &reg);
    assert_eq!(resolved[0].global_indices, vec![1, 0]);
    assert_eq!(resolved[1].name, "b");
}

#[test]
fn canonical_comparison() {
    assert_eq!(compare_canon("a", "a"), 0);
    assert!(compare_canon("a", "b") < 0);
    assert!(compare_canon("ab", "a") > 0);
    assert!(compare_canon("Z", "a") < 0);
    assert!(compare_canon("", "a") < 0);
}

#[test]
fn decimal_numerals() {
    assert_eq!(decimal_string(0), "0");
    assert_eq!(decimal_string(7), "7");
    assert_eq!(decimal_string(10), "10");
    assert_eq!(decimal_string(1204), "1204");
}
