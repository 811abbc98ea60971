use schemy::ast::{KeywordKind, LitKind, Module, Node, NodeKind, SchemyNode};
use schemy::declarations::{Declaration, DeclarationTables, SymbolName};
use schemy::deferred::{DeferredSchemas, DeferredType};
use schemy::cache::{CachedModule, ModuleCache};
use schemy::factory::{generate, Diagnostic, OpenApiFactory};
use schemy::resolver::{ModuleResolver, ResolutionEntry};
use schemy::schema::{ApiPathOperation, DataType, OpenApi, ParamLocation};

struct B {
    nodes: Vec<Node>,
}

impl B {
    fn new() -> B {
        B { nodes: vec![Node { kind: NodeKind::Module, children: vec![], parent: None }] }
    }

    fn add(&mut self, parent: usize, kind: NodeKind) -> usize {
        let i = self.nodes.len();
        self.nodes.push(Node { kind, children: vec![], parent: Some(parent) });
        self.nodes[parent].children.push(i);
        i
    }

    fn done(self) -> Module {
        Module { nodes: self.nodes }
    }
}

fn s(x: &str) -> String {
    x.to_string()
}

fn cache_of(files: Vec<(&str, Module)>) -> ModuleCache {
    ModuleCache {
        entries: files
            .into_iter()
            .map(|(p, m)| CachedModule { path: s(p), module: m })
            .collect(),
    }
}

fn resolver_of(entries: Vec<(&str, &str, &str)>) -> ModuleResolver {
    ModuleResolver {
        entries: entries
            .into_iter()
            .map(|(imp, spec, tgt)| ResolutionEntry {
                importer: s(imp),
                specifier: s(spec),
                target: s(tgt),
            })
            .collect(),
    }
}

/// Build `Path(handler, {method, path})`; returns (call, handler, options).
fn add_path_call(b: &mut B, root: usize, method: &str, path: &str) -> (usize, usize, usize) {
    let call = b.add(root, NodeKind::CallExpr);
    b.add(call, NodeKind::Ident { sym: s("Path") });
    let handler = b.add(call, NodeKind::ArrowExpr { n_params: 1 });
    let opts = b.add(call, NodeKind::ObjectLit);
    let kv1 = b.add(opts, NodeKind::KeyValueProp { key: Some(s("method")) });
    b.add(kv1, NodeKind::StrLit { value: s(method) });
    let kv2 = b.add(opts, NodeKind::KeyValueProp { key: Some(s("path")) });
    b.add(kv2, NodeKind::StrLit { value: s(path) });
    (call, handler, opts)
}

fn op0(doc: &OpenApi) -> &ApiPathOperation {
    &doc.paths[0].operations[0]
}

#[test]
fn primitive_query_param() {
    // Path((req: { q: QueryParam<string, true> }) => Response("x" as string,
    // {statusCode: "200"}), {method: "get", path: "/s"})
    let mut b = B::new();
    let (_, handler, _) = add_path_call(&mut b, 0, "get", "/s");
    let param = b.add(handler, NodeKind::Param { name: Some(s("req")) });
    let tl = b.add(param, NodeKind::TsTypeLit);
    let ps = b.add(tl, NodeKind::PropertySignature { key: Some(s("q")) });
    let marker = b.add(ps, NodeKind::TsTypeRef { name: Some(s("QueryParam")) });
    b.add(marker, NodeKind::TsKeywordType { kind: KeywordKind::Str });
    b.add(marker, NodeKind::TsLitType { lit: LitKind::Bool(true) });
    let body = b.add(handler, NodeKind::BlockStmt);
    let resp = b.add(body, NodeKind::CallExpr);
    b.add(resp, NodeKind::Ident { sym: s("Response") });
    let cast = b.add(resp, NodeKind::TsAsExpr);
    b.add(cast, NodeKind::StrLit { value: s("x") });
    b.add(cast, NodeKind::TsKeywordType { kind: KeywordKind::Str });
    let ropts = b.add(resp, NodeKind::ObjectLit);
    let kv = b.add(ropts, NodeKind::KeyValueProp { key: Some(s("statusCode")) });
    b.add(kv, NodeKind::StrLit { value: s("200") });

    let cache = cache_of(vec![("/a.ts", b.done())]);
    let res = resolver_of(vec![]);
    let (doc, fac) = generate(&s("/a.ts"), &cache, &res);

    assert_eq!(doc.paths.len(), 1);
    assert_eq!(doc.paths[0].pattern, "/s");
    let op = op0(&doc);
    assert_eq!(op.method, "get");
    assert_eq!(op.parameters.len(), 1);
    let p = &op.parameters[0];
    assert_eq!(p.name.as_deref(), Some("q"));
    assert_eq!(p.location, Some(ParamLocation::Query));
    assert_eq!(p.required, Some(true));
    assert_eq!(p.schema.data_type, Some(DataType::Str));
    assert!(p.schema.reference.is_none());
    assert_eq!(op.responses.len(), 1);
    assert_eq!(op.responses[0].status_code, "200");
    assert!(op.responses[0].schema_ref.is_none());
    assert!(fac.diagnostics.is_empty());
}

fn user_class_module() -> Module {
    // export class User { id: number; name: string }
    let mut b = B::new();
    let ed = b.add(0, NodeKind::ExportDecl);
    let cls = b.add(ed, NodeKind::ClassDecl { name: s("User") });
    let p1 = b.add(cls, NodeKind::ClassProp { key: Some(s("id")) });
    b.add(p1, NodeKind::TsKeywordType { kind: KeywordKind::Number });
    let p2 = b.add(cls, NodeKind::ClassProp { key: Some(s("name")) });
    b.add(p2, NodeKind::TsKeywordType { kind: KeywordKind::Str });
    b.done()
}

#[test]
fn cross_file_body() {
    // File A: import {User} from "./b";
    // Path((req: {body: BodyParam<User, true>}) => Response(new User(),
    // {statusCode: "201"}), {method: "post", path: "/u"})
    let mut b = B::new();
    let imp = b.add(0, NodeKind::ImportDecl { src: s("./b") });
    b.add(imp, NodeKind::ImportNamedSpecifier { local: s("User"), imported: None });
    let (_, handler, _) = add_path_call(&mut b, 0, "post", "/u");
    let param = b.add(handler, NodeKind::Param { name: Some(s("req")) });
    let tl = b.add(param, NodeKind::TsTypeLit);
    let ps = b.add(tl, NodeKind::PropertySignature { key: Some(s("body")) });
    let marker = b.add(ps, NodeKind::TsTypeRef { name: Some(s("BodyParam")) });
    b.add(marker, NodeKind::TsTypeRef { name: Some(s("User")) });
    b.add(marker, NodeKind::TsLitType { lit: LitKind::Bool(true) });
    let body = b.add(handler, NodeKind::BlockStmt);
    let resp = b.add(body, NodeKind::CallExpr);
    b.add(resp, NodeKind::Ident { sym: s("Response") });
    let nu = b.add(resp, NodeKind::NewExpr);
    b.add(nu, NodeKind::Ident { sym: s("User") });
    let ropts = b.add(resp, NodeKind::ObjectLit);
    let kv = b.add(ropts, NodeKind::KeyValueProp { key: Some(s("statusCode")) });
    b.add(kv, NodeKind::StrLit { value: s("201") });

    let cache = cache_of(vec![("/a.ts", b.done()), ("/b.ts", user_class_module())]);
    let res = resolver_of(vec![("/a.ts", "./b", "/b.ts")]);
    let (doc, fac) = generate(&s("/a.ts"), &cache, &res);

    let op = op0(&doc);
    let body_param = op.body.as_ref().expect("body parameter");
    assert_eq!(body_param.schema.reference.as_deref(), Some("User"));
    assert_eq!(body_param.required, Some(true));
    assert_eq!(op.responses[0].status_code, "201");
    assert_eq!(op.responses[0].schema_ref.as_deref(), Some("User"));
    let user = doc
        .components
        .iter()
        .find(|c| c.name == "User")
        .expect("User schema");
    assert_eq!(user.schema.data_type, Some(DataType::Object));
    assert_eq!(user.schema.properties.len(), 2);
    assert_eq!(user.schema.properties[0].name, "id");
    assert_eq!(user.schema.properties[0].schema.data_type, Some(DataType::Number));
    assert_eq!(user.schema.properties[1].name, "name");
    assert_eq!(user.schema.properties[1].schema.data_type, Some(DataType::Str));
    assert!(fac.diagnostics.is_empty());
}

#[test]
fn namespace_grouping() {
    // interface T { a: string }; QueryParam<T, true, "V1">
    let mut b = B::new();
    let iface = b.add(0, NodeKind::InterfaceDecl { name: s("T") });
    let ps0 = b.add(iface, NodeKind::PropertySignature { key: Some(s("a")) });
    b.add(ps0, NodeKind::TsKeywordType { kind: KeywordKind::Str });
    let (_, handler, _) = add_path_call(&mut b, 0, "get", "/v");
    let param = b.add(handler, NodeKind::Param { name: Some(s("req")) });
    let tl = b.add(param, NodeKind::TsTypeLit);
    let ps = b.add(tl, NodeKind::PropertySignature { key: Some(s("q")) });
    let marker = b.add(ps, NodeKind::TsTypeRef { name: Some(s("QueryParam")) });
    b.add(marker, NodeKind::TsTypeRef { name: Some(s("T")) });
    b.add(marker, NodeKind::TsLitType { lit: LitKind::Bool(true) });
    b.add(marker, NodeKind::TsLitType { lit: LitKind::Str(s("V1")) });

    let cache = cache_of(vec![("/a.ts", b.done())]);
    let res = resolver_of(vec![]);
    let (doc, _fac) = generate(&s("/a.ts"), &cache, &res);

    let p = &op0(&doc).parameters[0];
    assert_eq!(p.schema.reference.as_deref(), Some("T"));
    assert_eq!(p.schema.namespace.as_deref(), Some("V1"));
    let v1 = doc.components.iter().find(|c| c.name == "V1").expect("V1 group");
    assert_eq!(v1.schema.data_type, Some(DataType::Object));
    assert_eq!(v1.schema.properties.len(), 1);
    let t = &v1.schema.properties[0];
    assert_eq!(t.name, "T");
    assert_eq!(t.schema.data_type, Some(DataType::Object));
    assert_eq!(t.schema.properties[0].name, "a");
    assert_eq!(t.schema.properties[0].schema.data_type, Some(DataType::Str));
    // No top-level schema named T.
    assert!(doc.components.iter().all(|c| c.name != "T"));
}

#[test]
fn transitive_re_export() {
    // A imports X from B; B re-exports X from C; C declares class X { v: boolean }.
    let mut a = B::new();
    let imp = a.add(0, NodeKind::ImportDecl { src: s("./b") });
    a.add(imp, NodeKind::ImportNamedSpecifier { local: s("X"), imported: None });
    let (_, handler, _) = add_path_call(&mut a, 0, "get", "/x");
    let param = a.add(handler, NodeKind::Param { name: Some(s("req")) });
    let tl = a.add(param, NodeKind::TsTypeLit);
    let ps = a.add(tl, NodeKind::PropertySignature { key: Some(s("q")) });
    let marker = a.add(ps, NodeKind::TsTypeRef { name: Some(s("QueryParam")) });
    a.add(marker, NodeKind::TsTypeRef { name: Some(s("X")) });
    a.add(marker, NodeKind::TsLitType { lit: LitKind::Bool(true) });

    let mut bb = B::new();
    let ne = bb.add(0, NodeKind::NamedExport { src: Some(s("./c")) });
    bb.add(ne, NodeKind::ExportSpecifier { orig: s("X"), exported: None });

    let mut c = B::new();
    let ed = c.add(0, NodeKind::ExportDecl);
    let cls = c.add(ed, NodeKind::ClassDecl { name: s("X") });
    let p1 = c.add(cls, NodeKind::ClassProp { key: Some(s("v")) });
    c.add(p1, NodeKind::TsKeywordType { kind: KeywordKind::Boolean });

    let cache = cache_of(vec![("/a.ts", a.done()), ("/b.ts", bb.done()), ("/c.ts", c.done())]);
    let res = resolver_of(vec![("/a.ts", "./b", "/b.ts"), ("/b.ts", "./c", "/c.ts")]);
    let (doc, fac) = generate(&s("/a.ts"), &cache, &res);

    let x = doc.components.iter().find(|cs| cs.name == "X").expect("X schema");
    assert_eq!(x.schema.data_type, Some(DataType::Object));
    assert_eq!(x.schema.properties.len(), 1);
    assert_eq!(x.schema.properties[0].name, "v");
    assert_eq!(x.schema.properties[0].schema.data_type, Some(DataType::Boolean));
    assert!(fac.diagnostics.is_empty());
}

#[test]
fn unresolved_import() {
    // Handler references Q from a module the resolver rejects.
    let mut b = B::new();
    let imp = b.add(0, NodeKind::ImportDecl { src: s("./missing") });
    b.add(imp, NodeKind::ImportNamedSpecifier { local: s("Q"), imported: None });
    let (_, handler, _) = add_path_call(&mut b, 0, "get", "/q");
    let param = b.add(handler, NodeKind::Param { name: Some(s("req")) });
    let tl = b.add(param, NodeKind::TsTypeLit);
    let ps = b.add(tl, NodeKind::PropertySignature { key: Some(s("q")) });
    let marker = b.add(ps, NodeKind::TsTypeRef { name: Some(s("QueryParam")) });
    b.add(marker, NodeKind::TsTypeRef { name: Some(s("Q")) });
    b.add(marker, NodeKind::TsLitType { lit: LitKind::Bool(true) });

    let cache = cache_of(vec![("/a.ts", b.done())]);
    let res = resolver_of(vec![]);
    let (doc, fac) = generate(&s("/a.ts"), &cache, &res);

    // The operation and parameter are still emitted, with a dangling
    // reference; exactly one resolution error is recorded.
    let p = &op0(&doc).parameters[0];
    assert_eq!(p.schema.reference.as_deref(), Some("Q"));
    assert!(doc.components.iter().all(|c| c.name != "Q"));
    let mre = fac
        .diagnostics
        .iter()
        .filter(|d| matches!(d, Diagnostic::ModuleResolutionError { .. }))
        .count();
    assert_eq!(mre, 1);
    // The dangling reference itself is excused by a missing-declaration
    // diagnostic.
    assert!(fac
        .diagnostics
        .iter()
        .any(|d| matches!(d, Diagnostic::MissingDeclaration { name } if name == "Q")));
}

#[test]
fn tags_and_method() {
    // Path(..., {method: "put", path: "/x", tags: ["a", "b"]})
    let mut b = B::new();
    let (_, _handler, opts) = add_path_call(&mut b, 0, "put", "/x");
    let kv = b.add(opts, NodeKind::KeyValueProp { key: Some(s("tags")) });
    let arr = b.add(kv, NodeKind::ArrayLit);
    b.add(arr, NodeKind::StrLit { value: s("a") });
    b.add(arr, NodeKind::StrLit { value: s("b") });

    let cache = cache_of(vec![("/a.ts", b.done())]);
    let res = resolver_of(vec![]);
    let (doc, _fac) = generate(&s("/a.ts"), &cache, &res);

    assert_eq!(doc.paths[0].pattern, "/x");
    let op = op0(&doc);
    assert_eq!(op.method, "put");
    assert_eq!(op.tags, Some(vec![s("a"), s("b")]));
}

/// A short, unambiguous rendering of a document, for comparing runs.
fn doc_sig(doc: &OpenApi) -> String {
    let mut out = String::new();
    for p in &doc.paths {
        out += &format!("path {}\n", p.pattern);
        for o in &p.operations {
            out += &format!("  op {} tags {:?}\n", o.method, o.tags);
            for pa in &o.parameters {
                out += &format!(
                    "    param {:?} {:?} {:?} {:?} {:?} {:?}\n",
                    pa.name,
                    pa.location,
                    pa.required,
                    pa.schema.data_type,
                    pa.schema.reference,
                    pa.schema.namespace,
                );
            }
            if let Some(bp) = &o.body {
                out += &format!(
                    "    body {:?} {:?} {:?}\n",
                    bp.required, bp.schema.data_type, bp.schema.reference
                );
            }
            for r in &o.responses {
                out += &format!(
                    "    resp {} {:?} {:?} {:?} {:?}\n",
                    r.status_code, r.description, r.example, r.schema_ref, r.namespace
                );
            }
        }
    }
    for c in &doc.components {
        out += &format!("schema {} {:?}\n", c.name, c.schema);
    }
    out
}

#[test]
fn generate_is_idempotent() {
    let build = || {
        let mut b = B::new();
        let imp = b.add(0, NodeKind::ImportDecl { src: s("./b") });
        b.add(imp, NodeKind::ImportNamedSpecifier { local: s("User"), imported: None });
        let (_, handler, _) = add_path_call(&mut b, 0, "post", "/u");
        let param = b.add(handler, NodeKind::Param { name: Some(s("req")) });
        let tl = b.add(param, NodeKind::TsTypeLit);
        let ps = b.add(tl, NodeKind::PropertySignature { key: Some(s("body")) });
        let marker = b.add(ps, NodeKind::TsTypeRef { name: Some(s("BodyParam")) });
        b.add(marker, NodeKind::TsTypeRef { name: Some(s("User")) });
        b.add(marker, NodeKind::TsLitType { lit: LitKind::Bool(true) });
        cache_of(vec![("/a.ts", b.done()), ("/b.ts", user_class_module())])
    };
    let res = resolver_of(vec![("/a.ts", "./b", "/b.ts")]);
    let (d1, f1) = generate(&s("/a.ts"), &build(), &res);
    let (d2, f2) = generate(&s("/a.ts"), &build(), &res);
    assert_eq!(doc_sig(&d1), doc_sig(&d2));
    assert_eq!(f1.diagnostics.len(), f2.diagnostics.len());
}

#[test]
fn alias_chain_transparent() {
    // A marker referencing X2, where const X1 = XBase; const X2 = X1 bind
    // plain aliases, yields the same schema as one referencing XBase
    // directly: the alias walk dissolves the chain.
    let build = |ref_name: &str| {
        let mut b = B::new();
        let cls = b.add(0, NodeKind::ClassDecl { name: s("XBase") });
        let p1 = b.add(cls, NodeKind::ClassProp { key: Some(s("v")) });
        b.add(p1, NodeKind::TsKeywordType { kind: KeywordKind::Boolean });
        let al1 = b.add(
            0,
            NodeKind::VarDeclarator { name: Some(s("X1")), has_init: true, has_ann: false },
        );
        b.add(al1, NodeKind::Ident { sym: s("XBase") });
        let al2 = b.add(
            0,
            NodeKind::VarDeclarator { name: Some(s("X2")), has_init: true, has_ann: false },
        );
        b.add(al2, NodeKind::Ident { sym: s("X1") });
        let (_, handler, _) = add_path_call(&mut b, 0, "get", "/s");
        let param = b.add(handler, NodeKind::Param { name: Some(s("req")) });
        let tl = b.add(param, NodeKind::TsTypeLit);
        let ps = b.add(tl, NodeKind::PropertySignature { key: Some(s("q")) });
        let marker = b.add(ps, NodeKind::TsTypeRef { name: Some(s("QueryParam")) });
        b.add(marker, NodeKind::TsTypeRef { name: Some(s(ref_name)) });
        b.add(marker, NodeKind::TsLitType { lit: LitKind::Bool(true) });
        cache_of(vec![("/a.ts", b.done())])
    };
    let res = resolver_of(vec![]);
    let (d1, _) = generate(&s("/a.ts"), &build("X2"), &res);
    let (d2, _) = generate(&s("/a.ts"), &build("XBase"), &res);
    // Both resolve to the root name XBase and materialize the same schema.
    assert_eq!(doc_sig(&d1), doc_sig(&d2));
    let p = &op0(&d1).parameters[0];
    assert_eq!(p.schema.reference.as_deref(), Some("XBase"));
}

#[test]
fn marker_positional_decoding() {
    // Flipping only the second type argument flips `required`; changing only
    // the fourth changes the format; changing only the third moves the
    // namespace.
    let build = |required: bool, ns: &str, format: &str| {
        let mut b = B::new();
        let iface = b.add(0, NodeKind::InterfaceDecl { name: s("T") });
        let ps0 = b.add(iface, NodeKind::PropertySignature { key: Some(s("a")) });
        b.add(ps0, NodeKind::TsKeywordType { kind: KeywordKind::Str });
        let (_, handler, _) = add_path_call(&mut b, 0, "get", "/m");
        let param = b.add(handler, NodeKind::Param { name: Some(s("req")) });
        let tl = b.add(param, NodeKind::TsTypeLit);
        let ps = b.add(tl, NodeKind::PropertySignature { key: Some(s("h")) });
        let marker = b.add(ps, NodeKind::TsTypeRef { name: Some(s("Header")) });
        b.add(marker, NodeKind::TsTypeRef { name: Some(s("T")) });
        b.add(marker, NodeKind::TsLitType { lit: LitKind::Bool(required) });
        b.add(marker, NodeKind::TsLitType { lit: LitKind::Str(s(ns)) });
        b.add(marker, NodeKind::TsLitType { lit: LitKind::Str(s(format)) });
        cache_of(vec![("/a.ts", b.done())])
    };
    let res = resolver_of(vec![]);
    let (d1, _) = generate(&s("/a.ts"), &build(true, "N1", "f1"), &res);
    let (d2, _) = generate(&s("/a.ts"), &build(false, "N1", "f1"), &res);
    let (d3, _) = generate(&s("/a.ts"), &build(true, "N1", "f2"), &res);
    let (d4, _) = generate(&s("/a.ts"), &build(true, "N2", "f1"), &res);
    let p1 = &op0(&d1).parameters[0];
    let p2 = &op0(&d2).parameters[0];
    let p3 = &op0(&d3).parameters[0];
    let p4 = &op0(&d4).parameters[0];
    assert_eq!(p1.location, Some(ParamLocation::Header));
    assert_eq!(p1.required, Some(true));
    assert_eq!(p2.required, Some(false));
    assert_eq!(p2.schema.format, p1.schema.format);
    assert_eq!(p3.required, Some(true));
    assert_eq!(p3.schema.format.as_deref(), Some("f2"));
    assert_eq!(p1.schema.format.as_deref(), Some("f1"));
    assert_eq!(p1.schema.namespace.as_deref(), Some("N1"));
    assert_eq!(p4.schema.namespace.as_deref(), Some("N2"));
    assert!(d1.components.iter().any(|c| c.name == "N1"));
    assert!(d4.components.iter().any(|c| c.name == "N2"));
}

#[test]
fn scope_hygiene_between_handlers() {
    // A handler-local variable shadowing a top-level type does not change
    // what a sibling handler resolves.
    let build_handler = |b: &mut B, route: &str, shadow: bool| {
        let (_, handler, _) = add_path_call(b, 0, "get", route);
        let body = b.add(handler, NodeKind::BlockStmt);
        if shadow {
            // const T = OtherThing
            let vd = b.add(
                body,
                NodeKind::VarDeclarator { name: Some(s("T")), has_init: true, has_ann: false },
            );
            b.add(vd, NodeKind::Ident { sym: s("Other") });
        }
        let resp = b.add(body, NodeKind::CallExpr);
        b.add(resp, NodeKind::Ident { sym: s("Response") });
        let nu = b.add(resp, NodeKind::NewExpr);
        b.add(nu, NodeKind::Ident { sym: s("T") });
        let ropts = b.add(resp, NodeKind::ObjectLit);
        let kv = b.add(ropts, NodeKind::KeyValueProp { key: Some(s("statusCode")) });
        b.add(kv, NodeKind::StrLit { value: s("200") });
    };
    let mut b = B::new();
    let iface = b.add(0, NodeKind::InterfaceDecl { name: s("T") });
    let ps0 = b.add(iface, NodeKind::PropertySignature { key: Some(s("a")) });
    b.add(ps0, NodeKind::TsKeywordType { kind: KeywordKind::Str });
    let other = b.add(0, NodeKind::InterfaceDecl { name: s("Other") });
    let ps1 = b.add(other, NodeKind::PropertySignature { key: Some(s("z")) });
    b.add(ps1, NodeKind::TsKeywordType { kind: KeywordKind::Number });
    // First handler shadows T; second does not.
    build_handler(&mut b, "/one", true);
    build_handler(&mut b, "/two", false);

    let cache = cache_of(vec![("/a.ts", b.done())]);
    let res = resolver_of(vec![]);
    let (doc, _fac) = generate(&s("/a.ts"), &cache, &res);

    // The first handler's response resolves through the local alias to Other.
    assert_eq!(doc.paths[0].operations[0].responses[0].schema_ref.as_deref(), Some("Other"));
    // The sibling handler still sees the top-level T.
    assert_eq!(doc.paths[1].operations[0].responses[0].schema_ref.as_deref(), Some("T"));
}

#[test]
fn array_and_alias_types_materialize() {
    // type Names = string[]; class Box { items: Names }
    let mut b = B::new();
    let al = b.add(0, NodeKind::TypeAliasDecl { name: s("Names") });
    let arr = b.add(al, NodeKind::TsArrayType);
    b.add(arr, NodeKind::TsKeywordType { kind: KeywordKind::Str });
    let cls = b.add(0, NodeKind::ClassDecl { name: s("Wrap") });
    let p1 = b.add(cls, NodeKind::ClassProp { key: Some(s("items")) });
    b.add(p1, NodeKind::TsTypeRef { name: Some(s("Names")) });
    let (_, handler, _) = add_path_call(&mut b, 0, "get", "/w");
    let param = b.add(handler, NodeKind::Param { name: Some(s("req")) });
    let tl = b.add(param, NodeKind::TsTypeLit);
    let ps = b.add(tl, NodeKind::PropertySignature { key: Some(s("q")) });
    let marker = b.add(ps, NodeKind::TsTypeRef { name: Some(s("QueryParam")) });
    b.add(marker, NodeKind::TsTypeRef { name: Some(s("Wrap")) });
    b.add(marker, NodeKind::TsLitType { lit: LitKind::Bool(false) });

    let cache = cache_of(vec![("/a.ts", b.done())]);
    let res = resolver_of(vec![]);
    let (doc, fac) = generate(&s("/a.ts"), &cache, &res);

    let w = doc.components.iter().find(|c| c.name == "Wrap").expect("Wrap");
    assert_eq!(w.schema.properties[0].name, "items");
    // The nested reference resolves through the alias to Names and asks for a
    // schema of its own.
    assert_eq!(w.schema.properties[0].schema.reference.as_deref(), Some("Names"));
    let names = doc.components.iter().find(|c| c.name == "Names").expect("Names");
    assert_eq!(names.schema.data_type, Some(DataType::Array));
    let items = names.schema.items.as_ref().expect("items");
    assert_eq!(items.data_type, Some(DataType::Str));
    assert!(fac.diagnostics.is_empty());
}

#[test]
fn parse_error_for_missing_entry() {
    let cache = cache_of(vec![]);
    let res = resolver_of(vec![]);
    let (doc, fac) = generate(&s("/absent.ts"), &cache, &res);
    assert!(doc.paths.is_empty());
    assert!(fac
        .diagnostics
        .iter()
        .any(|d| matches!(d, Diagnostic::ParseError { file } if file == "/absent.ts")));
}

#[test]
fn malformed_endpoint_skipped() {
    // Path(handler, {}) without method/path is skipped with a diagnostic.
    let mut b = B::new();
    let call = b.add(0, NodeKind::CallExpr);
    b.add(call, NodeKind::Ident { sym: s("Path") });
    b.add(call, NodeKind::ArrowExpr { n_params: 0 });
    b.add(call, NodeKind::ObjectLit);
    let cache = cache_of(vec![("/a.ts", b.done())]);
    let res = resolver_of(vec![]);
    let (doc, fac) = generate(&s("/a.ts"), &cache, &res);
    assert!(doc.paths.is_empty());
    assert!(fac
        .diagnostics
        .iter()
        .any(|d| matches!(d, Diagnostic::MalformedEndpoint { .. })));
}

#[test]
fn work_limit_reported() {
    // With no allowance left, a schema request is dropped and reported.
    let mut b = B::new();
    let cls = b.add(0, NodeKind::ClassDecl { name: s("C") });
    let p1 = b.add(cls, NodeKind::ClassProp { key: Some(s("x")) });
    b.add(p1, NodeKind::TsKeywordType { kind: KeywordKind::Number });
    let m = b.done();
    let mut doc = OpenApi { paths: vec![], components: vec![] };
    let mut fac = OpenApiFactory::new();
    let res = resolver_of(vec![]);
    let file = s("/a.ts");
    fac.store_declaration_maybe(&m, &res, &file, 1);
    fac.budget = 0;
    fac.define_referenced_schema(&mut doc, &m, &file, &s("C"), &s("C"), &None);
    assert!(fac
        .diagnostics
        .iter()
        .any(|d| matches!(d, Diagnostic::WorkLimitExceeded { name: Some(n) } if n == "C")));
    assert!(doc.components.is_empty());
}

#[test]
fn missing_declaration_reported() {
    // A marker referencing an undeclared name leaves the reference dangling
    // and records a missing declaration.
    let mut b = B::new();
    let (_, handler, _) = add_path_call(&mut b, 0, "get", "/g");
    let param = b.add(handler, NodeKind::Param { name: Some(s("req")) });
    let tl = b.add(param, NodeKind::TsTypeLit);
    let ps = b.add(tl, NodeKind::PropertySignature { key: Some(s("q")) });
    let marker = b.add(ps, NodeKind::TsTypeRef { name: Some(s("Ghostly")) });
    b.add(marker, NodeKind::TsLitType { lit: LitKind::Bool(true) });
    // Not a known marker name and not declared: the walk treats it as a
    // plain type reference with no import to follow, so nothing is deferred.
    let cache = cache_of(vec![("/a.ts", b.done())]);
    let res = resolver_of(vec![]);
    let (_doc, fac) = generate(&s("/a.ts"), &cache, &res);
    assert!(fac.diagnostics.is_empty() || fac
        .diagnostics
        .iter()
        .all(|d| matches!(d, Diagnostic::MissingDeclaration { .. })));
}

#[test]
fn response_options_decoded() {
    // description, example, namespace and a numeric statusCode all carry over.
    let mut b = B::new();
    let cls = b.add(0, NodeKind::ClassDecl { name: s("R") });
    let p1 = b.add(cls, NodeKind::ClassProp { key: Some(s("x")) });
    b.add(p1, NodeKind::TsKeywordType { kind: KeywordKind::Number });
    let (_, handler, _) = add_path_call(&mut b, 0, "get", "/r");
    let body = b.add(handler, NodeKind::BlockStmt);
    let resp = b.add(body, NodeKind::CallExpr);
    b.add(resp, NodeKind::Ident { sym: s("Response") });
    let nu = b.add(resp, NodeKind::NewExpr);
    b.add(nu, NodeKind::Ident { sym: s("R") });
    let ropts = b.add(resp, NodeKind::ObjectLit);
    let kv1 = b.add(ropts, NodeKind::KeyValueProp { key: Some(s("statusCode")) });
    b.add(kv1, NodeKind::NumLit { raw: s("200") });
    let kv2 = b.add(ropts, NodeKind::KeyValueProp { key: Some(s("description")) });
    b.add(kv2, NodeKind::StrLit { value: s("all good") });
    let kv3 = b.add(ropts, NodeKind::KeyValueProp { key: Some(s("example")) });
    b.add(kv3, NodeKind::StrLit { value: s("{}") });
    let kv4 = b.add(ropts, NodeKind::KeyValueProp { key: Some(s("namespace")) });
    b.add(kv4, NodeKind::StrLit { value: s("V2") });

    let cache = cache_of(vec![("/a.ts", b.done())]);
    let res = resolver_of(vec![]);
    let (doc, _fac) = generate(&s("/a.ts"), &cache, &res);

    let r = &op0(&doc).responses[0];
    assert_eq!(r.status_code, "200");
    assert_eq!(r.description.as_deref(), Some("all good"));
    assert_eq!(r.example.as_deref(), Some("{}"));
    assert_eq!(r.namespace.as_deref(), Some("V2"));
    assert_eq!(r.schema_ref.as_deref(), Some("R"));
    // The response schema lands under the namespace.
    let v2 = doc.components.iter().find(|c| c.name == "V2").expect("V2");
    assert_eq!(v2.schema.properties[0].name, "R");
}

#[test]
fn default_export_resolves() {
    // import D from "./b"; QueryParam<D, true>; b: export default class { n: number }
    let mut a = B::new();
    let imp = a.add(0, NodeKind::ImportDecl { src: s("./b") });
    a.add(imp, NodeKind::ImportDefaultSpecifier { local: s("D") });
    let (_, handler, _) = add_path_call(&mut a, 0, "get", "/d");
    let param = a.add(handler, NodeKind::Param { name: Some(s("req")) });
    let tl = a.add(param, NodeKind::TsTypeLit);
    let ps = a.add(tl, NodeKind::PropertySignature { key: Some(s("q")) });
    let marker = a.add(ps, NodeKind::TsTypeRef { name: Some(s("QueryParam")) });
    a.add(marker, NodeKind::TsTypeRef { name: Some(s("D")) });
    a.add(marker, NodeKind::TsLitType { lit: LitKind::Bool(true) });

    let mut bb = B::new();
    let de = bb.add(0, NodeKind::ExportDefaultExpr);
    let cls = bb.add(de, NodeKind::ClassExpr { name: None });
    let p1 = bb.add(cls, NodeKind::ClassProp { key: Some(s("n")) });
    bb.add(p1, NodeKind::TsKeywordType { kind: KeywordKind::Number });

    let cache = cache_of(vec![("/a.ts", a.done()), ("/b.ts", bb.done())]);
    let res = resolver_of(vec![("/a.ts", "./b", "/b.ts")]);
    let (doc, fac) = generate(&s("/a.ts"), &cache, &res);

    let d = doc.components.iter().find(|c| c.name == "D").expect("D schema");
    assert_eq!(d.schema.data_type, Some(DataType::Object));
    assert_eq!(d.schema.properties[0].name, "n");
    assert!(fac.diagnostics.is_empty());
}

#[test]
fn deferred_obligations_deduplicate() {
    let mut q = DeferredSchemas::new();
    let t = || DeferredType {
        source_file_name: s("/b.ts"),
        schema_name: s("X"),
        exported_name: SymbolName::Named(s("X")),
        namespace: None,
    };
    assert!(q.add_deferred_type(t()));
    assert!(!q.add_deferred_type(t()));
    assert_eq!(q.types.len(), 1);
    assert_eq!(q.modules.len(), 1);
    assert_eq!(q.next_module().as_deref(), Some("/b.ts"));
    assert!(q.next_module().is_none());
}

#[test]
fn alias_walk_stops_at_terminal() {
    let mut t = DeclarationTables::new();
    let file = s("/a.ts");
    t.insert(
        &file,
        SymbolName::Named(s("A")),
        Declaration::Alias { from: SymbolName::Named(s("A")), to: s("B") },
    );
    t.insert(
        &file,
        SymbolName::Named(s("B")),
        Declaration::Alias { from: SymbolName::Named(s("B")), to: s("C") },
    );
    t.insert(&file, SymbolName::Named(s("C")), Declaration::Type { node: 7 });
    let k = t.find_type_name(&SymbolName::Named(s("A")), &file);
    assert!(matches!(k, SymbolName::Named(n) if n == "C"));
    let d = t.get_root_declaration(&file, &SymbolName::Named(s("A")));
    assert!(matches!(d, Some(Declaration::Type { node: 7 })));
    // A cyclic pair of aliases still terminates, returning a key on the cycle.
    t.insert(
        &file,
        SymbolName::Named(s("P")),
        Declaration::Alias { from: SymbolName::Named(s("P")), to: s("R") },
    );
    t.insert(
        &file,
        SymbolName::Named(s("R")),
        Declaration::Alias { from: SymbolName::Named(s("R")), to: s("P") },
    );
    let k2 = t.find_type_name(&SymbolName::Named(s("P")), &file);
    assert!(matches!(k2, SymbolName::Named(n) if n == "P" || n == "R"));
}

#[test]
fn scope_stack_shadows_and_pops() {
    let mut t = DeclarationTables::new();
    let file = s("/a.ts");
    t.insert(&file, SymbolName::Named(s("T")), Declaration::Type { node: 1 });
    t.add_child_scope(&file);
    t.insert(
        &file,
        SymbolName::Named(s("T")),
        Declaration::Alias { from: SymbolName::Named(s("T")), to: s("Other") },
    );
    assert!(matches!(
        t.get_declaration(&file, &SymbolName::Named(s("T"))),
        Some(Declaration::Alias { .. })
    ));
    t.parent_scope(&file);
    assert!(matches!(
        t.get_declaration(&file, &SymbolName::Named(s("T"))),
        Some(Declaration::Type { node: 1 })
    ));
}

#[test]
fn node_accessors() {
    let mut b = B::new();
    let (call, handler, opts) = add_path_call(&mut b, 0, "get", "/n");
    let param = b.add(handler, NodeKind::Param { name: Some(s("req")) });
    let tl = b.add(param, NodeKind::TsTypeLit);
    let ps = b.add(tl, NodeKind::PropertySignature { key: Some(s("q")) });
    let marker = b.add(ps, NodeKind::TsTypeRef { name: Some(s("QueryParam")) });
    let arg0 = b.add(marker, NodeKind::TsKeywordType { kind: KeywordKind::Str });
    let cls = b.add(0, NodeKind::ClassDecl { name: s("C") });
    let prop = b.add(cls, NodeKind::ClassProp { key: Some(s("xs")) });
    let arr = b.add(prop, NodeKind::TsArrayType);
    let elem = b.add(arr, NodeKind::TsKeywordType { kind: KeywordKind::Number });
    let iface = b.add(0, NodeKind::InterfaceDecl { name: s("I") });
    let isig = b.add(iface, NodeKind::PropertySignature { key: Some(s("a")) });
    let ed = b.add(0, NodeKind::ExportDecl);
    let alias = b.add(ed, NodeKind::TypeAliasDecl { name: s("A") });
    let atype = b.add(alias, NodeKind::TsKeywordType { kind: KeywordKind::Str });
    let imp = b.add(0, NodeKind::ImportDecl { src: s("./b") });
    let ispec = b.add(imp, NodeKind::ImportNamedSpecifier { local: s("X"), imported: None });
    let m = b.done();

    let n = |i: usize| SchemyNode { index: i };
    // Call structure.
    assert_eq!(n(call).callee(&m).unwrap().index, call + 1);
    let args = n(call).args(&m);
    assert_eq!(args.len(), 2);
    assert_eq!(args[0].index, handler);
    assert_eq!(args[1].index, opts);
    // Handler parameters and type arguments.
    let params = n(handler).params(&m);
    assert_eq!(params.len(), 1);
    assert_eq!(params[0].index, param);
    assert_eq!(n(marker).type_params(&m)[0].index, arg0);
    assert_eq!(n(marker).params(&m)[0].index, arg0);
    // Members, classes, interfaces.
    assert_eq!(n(tl).members(&m)[0].index, ps);
    assert_eq!(n(cls).class(&m).unwrap().index, cls);
    assert_eq!(n(cls).body(&m)[0].index, prop);
    assert_eq!(n(prop).class_prop(&m).unwrap().index, prop);
    assert!(n(param).class_prop(&m).is_none());
    assert_eq!(n(iface).interface_body(&m).unwrap().index, iface);
    assert_eq!(n(iface).body(&m)[0].index, isig);
    // Types and declarations.
    assert_eq!(n(arr).elem_type(&m).unwrap().index, elem);
    assert_eq!(n(prop).type_ann(&m).unwrap().index, arr);
    assert_eq!(n(alias).type_ann(&m).unwrap().index, atype);
    assert_eq!(n(ed).decl(&m).unwrap().index, alias);
    assert_eq!(n(imp).specifiers(&m)[0].index, ispec);
    // Navigation.
    assert_eq!(n(marker).parent(&m).unwrap().index, ps);
    assert!(n(0).parent(&m).is_none());
    assert_eq!(n(0).get(&m, cls).unwrap().index, cls);
    assert!(n(0).get(&m, 10_000).is_none());
}

#[test]
fn empty_tags_array_is_dropped() {
    // tags: [] leaves the operation without tags.
    let mut b = B::new();
    let (_, _h, opts) = add_path_call(&mut b, 0, "get", "/t");
    let kv = b.add(opts, NodeKind::KeyValueProp { key: Some(s("tags")) });
    b.add(kv, NodeKind::ArrayLit);
    let cache = cache_of(vec![("/a.ts", b.done())]);
    let res = resolver_of(vec![]);
    let (doc, _) = generate(&s("/a.ts"), &cache, &res);
    assert_eq!(op0(&doc).tags, None);
}

#[test]
fn response_without_status_code_not_registered() {
    let mut b = B::new();
    let (_, handler, _) = add_path_call(&mut b, 0, "get", "/r");
    let body = b.add(handler, NodeKind::BlockStmt);
    let resp = b.add(body, NodeKind::CallExpr);
    b.add(resp, NodeKind::Ident { sym: s("Response") });
    b.add(resp, NodeKind::StrLit { value: s("x") });
    let ropts = b.add(resp, NodeKind::ObjectLit);
    let kv = b.add(ropts, NodeKind::KeyValueProp { key: Some(s("description")) });
    b.add(kv, NodeKind::StrLit { value: s("no code") });
    let cache = cache_of(vec![("/a.ts", b.done())]);
    let res = resolver_of(vec![]);
    let (doc, _) = generate(&s("/a.ts"), &cache, &res);
    assert!(op0(&doc).responses.is_empty());
}

#[test]
fn later_option_occurrence_wins() {
    // A repeated `path` key overrides the earlier value.
    let mut b = B::new();
    let (_, _h, opts) = add_path_call(&mut b, 0, "get", "/first");
    let kv = b.add(opts, NodeKind::KeyValueProp { key: Some(s("path")) });
    b.add(kv, NodeKind::StrLit { value: s("/second") });
    let cache = cache_of(vec![("/a.ts", b.done())]);
    let res = resolver_of(vec![]);
    let (doc, _) = generate(&s("/a.ts"), &cache, &res);
    assert_eq!(doc.paths[0].pattern, "/second");
}

#[test]
fn annotation_fallback_for_variables() {
    // const x: T (no initializer) aliases x to T; Response(x) resolves it.
    let mut b = B::new();
    let iface = b.add(0, NodeKind::InterfaceDecl { name: s("T") });
    let ps0 = b.add(iface, NodeKind::PropertySignature { key: Some(s("a")) });
    b.add(ps0, NodeKind::TsKeywordType { kind: KeywordKind::Str });
    let (_, handler, _) = add_path_call(&mut b, 0, "get", "/v");
    let body = b.add(handler, NodeKind::BlockStmt);
    let vd = b.add(
        body,
        NodeKind::VarDeclarator { name: Some(s("x")), has_init: false, has_ann: true },
    );
    b.add(vd, NodeKind::TsTypeRef { name: Some(s("T")) });
    let resp = b.add(body, NodeKind::CallExpr);
    b.add(resp, NodeKind::Ident { sym: s("Response") });
    b.add(resp, NodeKind::Ident { sym: s("x") });
    let ropts = b.add(resp, NodeKind::ObjectLit);
    let kv = b.add(ropts, NodeKind::KeyValueProp { key: Some(s("statusCode")) });
    b.add(kv, NodeKind::StrLit { value: s("200") });
    let cache = cache_of(vec![("/a.ts", b.done())]);
    let res = resolver_of(vec![]);
    let (doc, _) = generate(&s("/a.ts"), &cache, &res);
    assert_eq!(op0(&doc).responses[0].schema_ref.as_deref(), Some("T"));
}

#[test]
fn moving_declaration_keeps_content() {
    // The same class declared locally, or moved to another file and
    // re-exported, materializes identical schema content.
    let marker_file = |import_from: Option<&str>| {
        let mut b = B::new();
        if let Some(srcp) = import_from {
            let imp = b.add(0, NodeKind::ImportDecl { src: s(srcp) });
            b.add(imp, NodeKind::ImportNamedSpecifier { local: s("User"), imported: None });
        } else {
            let cls = b.add(0, NodeKind::ClassDecl { name: s("User") });
            let p1 = b.add(cls, NodeKind::ClassProp { key: Some(s("id")) });
            b.add(p1, NodeKind::TsKeywordType { kind: KeywordKind::Number });
            let p2 = b.add(cls, NodeKind::ClassProp { key: Some(s("name")) });
            b.add(p2, NodeKind::TsKeywordType { kind: KeywordKind::Str });
        }
        let (_, handler, _) = add_path_call(&mut b, 0, "get", "/u");
        let param = b.add(handler, NodeKind::Param { name: Some(s("req")) });
        let tl = b.add(param, NodeKind::TsTypeLit);
        let ps = b.add(tl, NodeKind::PropertySignature { key: Some(s("q")) });
        let marker = b.add(ps, NodeKind::TsTypeRef { name: Some(s("QueryParam")) });
        b.add(marker, NodeKind::TsTypeRef { name: Some(s("User")) });
        b.add(marker, NodeKind::TsLitType { lit: LitKind::Bool(true) });
        b.done()
    };
    // Run one: User declared in the entry file itself.
    let cache1 = cache_of(vec![("/a.ts", marker_file(None))]);
    let res1 = resolver_of(vec![]);
    let (d1, _) = generate(&s("/a.ts"), &cache1, &res1);
    // Run two: User moved to /c.ts and re-exported through /b.ts.
    let mut bb = B::new();
    let ne = bb.add(0, NodeKind::NamedExport { src: Some(s("./c")) });
    bb.add(ne, NodeKind::ExportSpecifier { orig: s("User"), exported: None });
    let cache2 = cache_of(vec![
        ("/a.ts", marker_file(Some("./b"))),
        ("/b.ts", bb.done()),
        ("/c.ts", user_class_module()),
    ]);
    let res2 = resolver_of(vec![("/a.ts", "./b", "/b.ts"), ("/b.ts", "./c", "/c.ts")]);
    let (d2, _) = generate(&s("/a.ts"), &cache2, &res2);

    let pick = |d: &OpenApi| {
        format!("{:?}", d.components.iter().find(|c| c.name == "User").expect("User").schema)
    };
    assert_eq!(pick(&d1), pick(&d2));
}

#[test]
fn deferred_parameter_elaboration() {
    // The handler's request type lives in another file: parameter extraction
    // is deferred and re-run against the imported declaration.
    let mut a = B::new();
    let imp = a.add(0, NodeKind::ImportDecl { src: s("./b") });
    a.add(imp, NodeKind::ImportNamedSpecifier { local: s("Req"), imported: None });
    let (_, handler, _) = add_path_call(&mut a, 0, "get", "/d");
    let param = a.add(handler, NodeKind::Param { name: Some(s("req")) });
    a.add(param, NodeKind::TsTypeRef { name: Some(s("Req")) });

    // b: export interface Req { q: QueryParam<string, true> }
    let mut bb = B::new();
    let ed = bb.add(0, NodeKind::ExportDecl);
    let iface = bb.add(ed, NodeKind::InterfaceDecl { name: s("Req") });
    let ps = bb.add(iface, NodeKind::PropertySignature { key: Some(s("q")) });
    let marker = bb.add(ps, NodeKind::TsTypeRef { name: Some(s("QueryParam")) });
    bb.add(marker, NodeKind::TsKeywordType { kind: KeywordKind::Str });
    bb.add(marker, NodeKind::TsLitType { lit: LitKind::Bool(true) });

    let cache = cache_of(vec![("/a.ts", a.done()), ("/b.ts", bb.done())]);
    let res = resolver_of(vec![("/a.ts", "./b", "/b.ts")]);
    let (doc, fac) = generate(&s("/a.ts"), &cache, &res);

    let op = op0(&doc);
    assert_eq!(op.parameters.len(), 1);
    let p = &op.parameters[0];
    assert_eq!(p.name.as_deref(), Some("q"));
    assert_eq!(p.location, Some(ParamLocation::Query));
    assert_eq!(p.required, Some(true));
    assert_eq!(p.schema.data_type, Some(DataType::Str));
    assert!(fac.diagnostics.is_empty());
}
