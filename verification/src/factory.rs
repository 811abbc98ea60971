use vstd::prelude::*;
use crate::ast::{Module, NodeKind};
use crate::cache::{cache_wf, spec_parse, CachedModule, ModuleCache};
use crate::declarations::{
    name_matches, root_decl, spec_add_child_scope, spec_insert, spec_parent_scope, tables_wf,
    Declaration, DeclarationTables, Entry, FileTableView, SymbolName,
};
use crate::deferred::{
    dot_exists, dt_exists, dt_matches, opt_str_matches, DeferredOperationType, DeferredSchemas,
    DeferredType,
};
use crate::materializer::{materialize_type, spec_materialize, spec_refs};
use crate::options::{
    decode_marker, get_parameter_name, get_path_options, get_response_options, spec_marker_format,
    spec_marker_namespace, spec_marker_payload, spec_marker_required, spec_parameter_name,
    spec_path_options, spec_response_options, str_eq, PayloadKind, ResponseOptions,
};
use crate::resolver::{spec_resolve, ModuleResolver, ResolutionEntry};
use crate::schema::{
    op_at, op_in_bounds, spec_add_operation, spec_component_index, spec_path, spec_set_op,
    spec_set_property, ApiParam, ApiResponse, ApiSchema, DataType, OpHandle, OpenApi, OpenApiView,
    ParamLocation, SchemaView,
};

verus! {

/// A schema known to stand in the document, under its namespace when it has
/// one.
#[derive(Clone, Debug)]
pub struct DefinedSchema {
    pub namespace: Option<String>,
    pub name: String,
}

/// What the engine reports instead of failing: it never throws for
/// shape-of-input problems, it collects these and produces a best-effort
/// document.
#[derive(Clone, Debug)]
pub enum Diagnostic {
    /// A file could not be parsed (here: the cache holds no tree for it);
    /// the file is treated as empty.
    ParseError { file: String },
    /// An import specifier could not be mapped to a path; the binding is not
    /// inserted and downstream references degrade to unresolved ones.
    ModuleResolutionError { file: String, specifier: String },
    /// A referenced name has no terminal type declaration and no import to
    /// follow; its schema is omitted.
    MissingDeclaration { name: String },
    /// A `Path` call without usable `method` and `path` options; the endpoint
    /// is skipped.
    MalformedEndpoint { file: String },
    /// The run's work allowance ran out; the named piece of work was dropped.
    WorkLimitExceeded { name: Option<String> },
}

/// How much deferred and nested work one run may spawn. Real inputs stay far
/// below this; the bound makes the work loop total even on adversarial
/// tables.
pub const WORK_BUDGET: usize = 1000000;

/// The engine: symbol tables, deferred obligations, the names already
/// materialized, the diagnostics so far, and the remaining work allowance.
#[derive(Debug)]
pub struct OpenApiFactory {
    pub deferred_schemas: DeferredSchemas,
    pub symbol_tables: DeclarationTables,
    pub defined: Vec<DefinedSchema>,
    pub diagnostics: Vec<Diagnostic>,
    pub budget: usize,
}

/// Ghost image of the engine state.
#[verifier::ext_equal]
pub struct FacView {
    pub modules: Seq<String>,
    pub next: int,
    pub types: Seq<DeferredType>,
    pub operation_types: Seq<DeferredOperationType>,
    pub tables: Seq<FileTableView>,
    pub defined: Seq<DefinedSchema>,
    pub diags: Seq<Diagnostic>,
    pub budget: nat,
}

impl View for OpenApiFactory {
    type V = FacView;

    open spec fn view(&self) -> FacView {
        FacView {
            modules: self.deferred_schemas.modules@,
            next: self.deferred_schemas.next as int,
            types: self.deferred_schemas.types@,
            operation_types: self.deferred_schemas.operation_types@,
            tables: self.symbol_tables@,
            defined: self.defined@,
            diags: self.diagnostics@,
            budget: self.budget as nat,
        }
    }
}

/// The whole state a step acts on: the engine and the document.
pub type EngState = (FacView, OpenApiView);

/// The engine's structural invariant.
pub open spec fn fac_wf(f: FacView) -> bool {
    &&& tables_wf(f.tables)
    &&& 0 <= f.next <= f.modules.len()
}

/// The measure the work loop runs down: remaining allowance plus files still
/// waiting. Every engine step keeps it from growing, and taking a file off
/// the list shrinks it.
pub open spec fn fac_measure(f: FacView) -> int {
    f.budget + f.modules.len() - f.next
}

/// Whether `file` is still waiting in the unprocessed part of the file list.
pub open spec fn fac_pending(f: FacView, file: Seq<char>) -> bool {
    exists|i: int| f.next <= i < f.modules.len() && (#[trigger] f.modules[i])@ == file
}

/// Whether a schema named `name` was already materialized under `ns`.
pub open spec fn spec_defined_has(
    ds: Seq<DefinedSchema>,
    ns: Option<String>,
    name: Seq<char>,
) -> bool {
    exists|i: int|
        0 <= i < ds.len() && opt_str_matches(#[trigger] ds[i].namespace, ns) && ds[i].name@ == name
}

/// Recording a schema obligation: dropped when an equal one is recorded,
/// reported when the allowance is out, otherwise written down — putting its
/// file on the list when the file is not already waiting — at the price of
/// one unit of allowance.
pub open spec fn spec_defer_type(f: FacView, t: DeferredType) -> FacView {
    if dt_exists(f.types, t) {
        f
    } else if f.budget == 0 {
        FacView {
            diags: f.diags.push(Diagnostic::WorkLimitExceeded { name: Some(t.schema_name) }),
            ..f
        }
    } else {
        FacView {
            types: f.types.push(t),
            modules: if fac_pending(f, t.source_file_name@) {
                f.modules
            } else {
                f.modules.push(t.source_file_name)
            },
            budget: (f.budget - 1) as nat,
            ..f
        }
    }
}

/// Recording a parameter obligation, as for a schema obligation.
pub open spec fn spec_defer_operation_type(f: FacView, t: DeferredOperationType) -> FacView {
    if dot_exists(f.operation_types, t) {
        f
    } else if f.budget == 0 {
        FacView {
            diags: f.diags.push(
                Diagnostic::WorkLimitExceeded {
                    name: match t.exported_name {
                        SymbolName::Named(n) => Some(n),
                        SymbolName::Default => None,
                    },
                },
            ),
            ..f
        }
    } else {
        FacView {
            operation_types: f.operation_types.push(t),
            modules: if fac_pending(f, t.source_file_name@) {
                f.modules
            } else {
                f.modules.push(t.source_file_name)
            },
            budget: (f.budget - 1) as nat,
            ..f
        }
    }
}

impl OpenApiFactory {
    /// A fresh engine with a full work allowance.
    pub fn new() -> (r: OpenApiFactory)
        ensures
            r@.modules =~= Seq::<String>::empty(),
            r@.next == 0,
            r@.types =~= Seq::<DeferredType>::empty(),
            r@.operation_types =~= Seq::<DeferredOperationType>::empty(),
            r@.tables =~= Seq::<FileTableView>::empty(),
            r@.defined =~= Seq::<DefinedSchema>::empty(),
            r@.diags =~= Seq::<Diagnostic>::empty(),
            r@.budget == WORK_BUDGET as nat,
            fac_wf(r@),
    {
        OpenApiFactory {
            deferred_schemas: DeferredSchemas::new(),
            symbol_tables: DeclarationTables::new(),
            defined: Vec::new(),
            diagnostics: Vec::new(),
            budget: WORK_BUDGET,
        }
    }

    /// Record a schema obligation.
    fn defer_type(&mut self, t: DeferredType)
        requires
            fac_wf(old(self)@),
        ensures
            fac_wf(final(self)@),
            final(self)@ == spec_defer_type(old(self)@, t),
            fac_measure(final(self)@) <= fac_measure(old(self)@),
    {
        if self.budget == 0 {
            if !self.deferred_schemas.has_type(&t) {
                self.diagnostics.push(
                    Diagnostic::WorkLimitExceeded { name: Some(t.schema_name) },
                );
            }
            proof {
                assert(self@ =~= spec_defer_type(old(self)@, t));
            }
        } else {
            let added = self.deferred_schemas.add_deferred_type(t);
            if added {
                self.budget = self.budget - 1;
            }
            proof {
                if added {
                    assert(fac_pending(old(self)@, t.source_file_name@)
                        == crate::deferred::pending_has(
                        old(self).deferred_schemas,
                        t.source_file_name@,
                    ));
                }
                assert(self@ =~= spec_defer_type(old(self)@, t));
            }
        }
    }

    /// Record a parameter obligation.
    fn defer_operation_type(&mut self, t: DeferredOperationType)
        requires
            fac_wf(old(self)@),
        ensures
            fac_wf(final(self)@),
            final(self)@ == spec_defer_operation_type(old(self)@, t),
            fac_measure(final(self)@) <= fac_measure(old(self)@),
    {
        if self.budget == 0 {
            if !self.deferred_schemas.has_operation_type(&t) {
                self.diagnostics.push(
                    Diagnostic::WorkLimitExceeded {
                        name: match t.exported_name {
                            SymbolName::Named(n) => Some(n),
                            SymbolName::Default => None,
                        },
                    },
                );
            }
            proof {
                assert(self@ =~= spec_defer_operation_type(old(self)@, t));
            }
        } else {
            let added = self.deferred_schemas.add_deferred_operation_type(t);
            if added {
                self.budget = self.budget - 1;
            }
            proof {
                if added {
                    assert(fac_pending(old(self)@, t.source_file_name@)
                        == crate::deferred::pending_has(
                        old(self).deferred_schemas,
                        t.source_file_name@,
                    ));
                }
                assert(self@ =~= spec_defer_operation_type(old(self)@, t));
            }
        }
    }

    /// Whether a schema named `name` was already materialized under `ns`.
    fn defined_has(&self, ns: &Option<String>, name: &String) -> (r: bool)
        ensures
            r == spec_defined_has(self@.defined, *ns, name@),
    {
        let mut j: usize = 0;
        while j < self.defined.len()
            invariant
                j <= self.defined@.len(),
                forall|k: int|
                    0 <= k < j ==> !(opt_str_matches(#[trigger] self.defined@[k].namespace, *ns)
                        && self.defined@[k].name@ == name@),
            decreases self.defined@.len() - j,
        {
            let d = &self.defined[j];
            if crate::deferred::opt_str_eq(&d.namespace, ns) && d.name == *name {
                return true;
            }
            j = j + 1;
        }
        false
    }
}

/// Inserting one binding into `file`'s table.
pub open spec fn fac_insert(f: FacView, file: String, name: SymbolName, d: Declaration) -> FacView {
    FacView { tables: spec_insert(f.tables, file, Entry { name, decl: d }), ..f }
}

/// One diagnostic more.
pub open spec fn fac_diag(f: FacView, d: Diagnostic) -> FacView {
    FacView { diags: f.diags.push(d), ..f }
}

/// The first identifier or plainly-named type reference in the subtree at
/// `node`, in source order: what a variable initializer aliases its name to.
pub open spec fn spec_first_target(m: Module, node: int) -> Option<String>
    decreases m.count() - node, 1int, 0int,
        when m.wf() && 0 <= node < m.count()
{
    match m.node(node).kind {
        NodeKind::Ident { sym } => Some(sym),
        NodeKind::TsTypeRef { name } => name,
        _ => spec_first_target_from(m, node, 0),
    }
}

pub open spec fn spec_first_target_from(m: Module, node: int, i: int) -> Option<String>
    decreases m.count() - node, 0int, m.kids(node).len() - i,
        when m.wf() && 0 <= node < m.count() && 0 <= i
{
    if i >= m.kids(node).len() {
        None
    } else {
        match spec_first_target(m, m.kids(node)[i] as int) {
            Some(t) => Some(t),
            None => spec_first_target_from(m, node, i + 1),
        }
    }
}

/// Registering a default-export expression: an identifier, call, `new` or
/// cast aliases `default` to the named target; an array, object, arrow or
/// class value declares `default` as a local type (a named class also under
/// its own name).
pub open spec fn spec_store_default(f: FacView, m: Module, file: String, node: int) -> FacView {
    match m.node(node).kind {
        NodeKind::Ident { sym } => fac_insert(
            f,
            file,
            SymbolName::Default,
            Declaration::Alias { from: SymbolName::Default, to: sym },
        ),
        NodeKind::CallExpr | NodeKind::NewExpr => if m.kids(node).len() > 0 {
            match m.node(m.kids(node)[0] as int).kind {
                NodeKind::Ident { sym } => fac_insert(
                    f,
                    file,
                    SymbolName::Default,
                    Declaration::Alias { from: SymbolName::Default, to: sym },
                ),
                _ => f,
            }
        } else {
            f
        },
        NodeKind::ArrayLit | NodeKind::ObjectLit | NodeKind::ArrowExpr { .. } => fac_insert(
            f,
            file,
            SymbolName::Default,
            Declaration::Type { node: node as usize },
        ),
        NodeKind::ClassExpr { name } => {
            let f1 = fac_insert(
                f,
                file,
                SymbolName::Default,
                Declaration::Type { node: node as usize },
            );
            match name {
                Some(nm) => fac_insert(
                    f1,
                    file,
                    SymbolName::Named(nm),
                    Declaration::Type { node: node as usize },
                ),
                None => f1,
            }
        },
        NodeKind::TsAsExpr | NodeKind::TsTypeAssertion => if m.kids(node).len() > 1 {
            match m.node(m.kids(node)[1] as int).kind {
                NodeKind::TsTypeRef { name: Some(t) } => fac_insert(
                    f,
                    file,
                    SymbolName::Default,
                    Declaration::Alias { from: SymbolName::Default, to: t },
                ),
                _ => f,
            }
        } else {
            f
        },
        _ => f,
    }
}

/// Registering a variable declarator: the initializer's shape is examined
/// first — its first identifier or named type reference becomes the alias
/// target — and the type annotation is the fallback.
pub open spec fn spec_store_variable(f: FacView, m: Module, file: String, node: int) -> FacView {
    match m.node(node).kind {
        NodeKind::VarDeclarator { name: Some(nm), has_init, has_ann } => {
            let init_target: Option<String> = if has_init && m.kids(node).len() > 0 {
                spec_first_target(m, m.kids(node)[0] as int)
            } else {
                None
            };
            match init_target {
                Some(t) => fac_insert(
                    f,
                    file,
                    SymbolName::Named(nm),
                    Declaration::Alias { from: SymbolName::Named(nm), to: t },
                ),
                None => {
                    let ai: int = if has_init {
                        1
                    } else {
                        0
                    };
                    if has_ann && m.kids(node).len() > ai {
                        match m.node(m.kids(node)[ai] as int).kind {
                            NodeKind::TsTypeRef { name: Some(t) } => fac_insert(
                                f,
                                file,
                                SymbolName::Named(nm),
                                Declaration::Alias { from: SymbolName::Named(nm), to: t },
                            ),
                            _ => f,
                        }
                    } else {
                        f
                    }
                },
            }
        },
        _ => f,
    }
}

/// Registering the specifiers of an `import ... from src` declaration, from
/// position `i` on. Each specifier resolves `src` against the importing
/// file; a failure is reported and the binding not inserted.
pub open spec fn spec_store_import_specs(
    f: FacView,
    m: Module,
    res: Seq<ResolutionEntry>,
    file: String,
    src: String,
    node: int,
    i: int,
) -> FacView
    decreases m.kids(node).len() - i,
        when m.wf() && 0 <= node < m.count() && 0 <= i
{
    if i >= m.kids(node).len() {
        f
    } else {
        let f1 = match m.node(m.kids(node)[i] as int).kind {
            NodeKind::ImportDefaultSpecifier { local } => match spec_resolve(res, src@, file@) {
                Some(p) => fac_insert(
                    f,
                    file,
                    SymbolName::Named(local),
                    Declaration::Import { name: SymbolName::Default, source_file_name: p },
                ),
                None => fac_diag(
                    f,
                    Diagnostic::ModuleResolutionError { file, specifier: src },
                ),
            },
            NodeKind::ImportNamedSpecifier { local, imported } => match spec_resolve(
                res,
                src@,
                file@,
            ) {
                Some(p) => fac_insert(
                    f,
                    file,
                    SymbolName::Named(local),
                    Declaration::Import {
                        name: SymbolName::Named(
                            match imported {
                                Some(x) => x,
                                None => local,
                            },
                        ),
                        source_file_name: p,
                    },
                ),
                None => fac_diag(
                    f,
                    Diagnostic::ModuleResolutionError { file, specifier: src },
                ),
            },
            _ => f,
        };
        spec_store_import_specs(f1, m, res, file, src, node, i + 1)
    }
}

/// Registering the specifiers of an `export { ... } from src` declaration
/// whose source resolved to `target`, from position `i` on.
pub open spec fn spec_store_export_specs(
    f: FacView,
    m: Module,
    file: String,
    target: String,
    node: int,
    i: int,
) -> FacView
    decreases m.kids(node).len() - i,
        when m.wf() && 0 <= node < m.count() && 0 <= i
{
    if i >= m.kids(node).len() {
        f
    } else {
        let f1 = match m.node(m.kids(node)[i] as int).kind {
            NodeKind::ExportSpecifier { orig, exported } => fac_insert(
                f,
                file,
                SymbolName::Named(
                    match exported {
                        Some(x) => x,
                        None => orig,
                    },
                ),
                Declaration::Import { name: SymbolName::Named(orig), source_file_name: target },
            ),
            _ => f,
        };
        spec_store_export_specs(f1, m, file, target, node, i + 1)
    }
}

/// Registering whatever declaration the node at `node` makes, per the symbol
/// table rules: type declarations under their names, imports and re-exports
/// as cross-file bindings, default exports through `spec_store_default`,
/// variables through `spec_store_variable`. Other nodes register nothing.
pub open spec fn spec_store_declaration(
    f: FacView,
    m: Module,
    res: Seq<ResolutionEntry>,
    file: String,
    node: int,
) -> FacView
    decreases m.count() - node, 1int, 0int,
        when m.wf() && 0 <= node < m.count()
{
    match m.node(node).kind {
        NodeKind::ClassDecl { name } => fac_insert(
            f,
            file,
            SymbolName::Named(name),
            Declaration::Type { node: node as usize },
        ),
        NodeKind::InterfaceDecl { name } => fac_insert(
            f,
            file,
            SymbolName::Named(name),
            Declaration::Type { node: node as usize },
        ),
        NodeKind::TypeAliasDecl { name } => fac_insert(
            f,
            file,
            SymbolName::Named(name),
            Declaration::Type { node: node as usize },
        ),
        NodeKind::EnumDecl { name } => fac_insert(
            f,
            file,
            SymbolName::Named(name),
            Declaration::Type { node: node as usize },
        ),
        NodeKind::ClassExpr { .. } => fac_insert(
            f,
            file,
            SymbolName::Default,
            Declaration::Type { node: node as usize },
        ),
        NodeKind::ImportDecl { src } => spec_store_import_specs(f, m, res, file, src, node, 0),
        NodeKind::NamedExport { src } => match src {
            Some(s) => match spec_resolve(res, s@, file@) {
                Some(target) => spec_store_export_specs(f, m, file, target, node, 0),
                None => fac_diag(f, Diagnostic::ModuleResolutionError { file, specifier: s }),
            },
            None => f,
        },
        NodeKind::ExportDecl => spec_store_decl_kids(f, m, res, file, node, 0),
        NodeKind::ExportDefaultExpr => if m.kids(node).len() > 0 {
            spec_store_default(f, m, file, m.kids(node)[0] as int)
        } else {
            f
        },
        NodeKind::VarDeclarator { .. } => spec_store_variable(f, m, file, node),
        _ => f,
    }
}

/// Registering each child of `node` in turn, from position `i` on.
pub open spec fn spec_store_decl_kids(
    f: FacView,
    m: Module,
    res: Seq<ResolutionEntry>,
    file: String,
    node: int,
    i: int,
) -> FacView
    decreases m.count() - node, 0int, m.kids(node).len() - i,
        when m.wf() && 0 <= node < m.count() && 0 <= i
{
    if i >= m.kids(node).len() {
        f
    } else {
        spec_store_decl_kids(
            spec_store_declaration(f, m, res, file, m.kids(node)[i] as int),
            m,
            res,
            file,
            node,
            i + 1,
        )
    }
}

impl OpenApiFactory {
    /// The first identifier or plainly-named type reference under `node`.
    fn find_first_target(m: &Module, node: usize) -> (r: Option<String>)
        requires
            m.wf(),
            node < m.count(),
        ensures
            r == spec_first_target(*m, node as int),
        decreases m.count() - node, 1int, 0int,
    {
        match &m.nodes[node].kind {
            NodeKind::Ident { sym } => Some(sym.clone()),
            NodeKind::TsTypeRef { name } => match name {
                Some(n) => Some(n.clone()),
                None => None,
            },
            _ => Self::find_first_target_from(m, node, 0),
        }
    }

    fn find_first_target_from(m: &Module, node: usize, i: usize) -> (r: Option<String>)
        requires
            m.wf(),
            node < m.count(),
        ensures
            r == spec_first_target_from(*m, node as int, i as int),
        decreases m.count() - node, 0int, m.kids(node as int).len() - i,
    {
        let n = m.nodes[node].children.len();
        if i >= n {
            return None;
        }
        let c = m.nodes[node].children[i];
        match Self::find_first_target(m, c) {
            Some(t) => Some(t),
            None => Self::find_first_target_from(m, node, i + 1),
        }
    }

    /// Register the default-export expression at `node`.
    fn store_default_declaration(&mut self, m: &Module, file: &String, node: usize)
        requires
            m.wf(),
            node < m.count(),
            fac_wf(old(self)@),
        ensures
            fac_wf(final(self)@),
            final(self)@ == spec_store_default(old(self)@, *m, *file, node as int),
            fac_measure(final(self)@) <= fac_measure(old(self)@),
    {
        match &m.nodes[node].kind {
            NodeKind::Ident { sym } => {
                self.symbol_tables.insert(
                    file,
                    SymbolName::Default,
                    Declaration::Alias { from: SymbolName::Default, to: sym.clone() },
                );
                proof {
                    assert(self@ =~= spec_store_default(old(self)@, *m, *file, node as int));
                }
            },
            NodeKind::CallExpr | NodeKind::NewExpr => {
                if m.nodes[node].children.len() > 0 {
                    let c = m.nodes[node].children[0];
                    match &m.nodes[c].kind {
                        NodeKind::Ident { sym } => {
                            self.symbol_tables.insert(
                                file,
                                SymbolName::Default,
                                Declaration::Alias { from: SymbolName::Default, to: sym.clone() },
                            );
                        },
                        _ => {},
                    }
                }
                proof {
                    assert(self@ =~= spec_store_default(old(self)@, *m, *file, node as int));
                }
            },
            NodeKind::ArrayLit | NodeKind::ObjectLit | NodeKind::ArrowExpr { .. } => {
                self.symbol_tables.insert(
                    file,
                    SymbolName::Default,
                    Declaration::Type { node },
                );
                proof {
                    assert(self@ =~= spec_store_default(old(self)@, *m, *file, node as int));
                }
            },
            NodeKind::ClassExpr { name } => {
                let named = match name {
                    Some(nm) => Some(nm.clone()),
                    None => None,
                };
                self.symbol_tables.insert(
                    file,
                    SymbolName::Default,
                    Declaration::Type { node },
                );
                match named {
                    Some(nm) => {
                        self.symbol_tables.insert(
                            file,
                            SymbolName::Named(nm),
                            Declaration::Type { node },
                        );
                    },
                    None => {},
                }
                proof {
                    assert(self@ =~= spec_store_default(old(self)@, *m, *file, node as int));
                }
            },
            NodeKind::TsAsExpr | NodeKind::TsTypeAssertion => {
                if m.nodes[node].children.len() > 1 {
                    let c = m.nodes[node].children[1];
                    match &m.nodes[c].kind {
                        NodeKind::TsTypeRef { name: Some(t) } => {
                            self.symbol_tables.insert(
                                file,
                                SymbolName::Default,
                                Declaration::Alias { from: SymbolName::Default, to: t.clone() },
                            );
                        },
                        _ => {},
                    }
                }
                proof {
                    assert(self@ =~= spec_store_default(old(self)@, *m, *file, node as int));
                }
            },
            _ => {
                proof {
                    assert(self@ =~= spec_store_default(old(self)@, *m, *file, node as int));
                }
            },
        }
    }

    /// Register the variable declarator at `node`: the initializer's shape
    /// first, the type annotation as fallback.
    fn store_variable(&mut self, m: &Module, file: &String, node: usize)
        requires
            m.wf(),
            node < m.count(),
            fac_wf(old(self)@),
        ensures
            fac_wf(final(self)@),
            final(self)@ == spec_store_variable(old(self)@, *m, *file, node as int),
            fac_measure(final(self)@) <= fac_measure(old(self)@),
    {
        match &m.nodes[node].kind {
            NodeKind::VarDeclarator { name: Some(nm), has_init, has_ann } => {
                let nm = nm.clone();
                let has_init = *has_init;
                let has_ann = *has_ann;
                let init_target: Option<String> = if has_init && m.nodes[node].children.len() > 0 {
                    Self::find_first_target(m, m.nodes[node].children[0])
                } else {
                    None
                };
                match init_target {
                    Some(t) => {
                        self.symbol_tables.insert(
                            file,
                            SymbolName::Named(nm.clone()),
                            Declaration::Alias { from: SymbolName::Named(nm), to: t },
                        );
                    },
                    None => {
                        let ai: usize = if has_init {
                            1
                        } else {
                            0
                        };
                        if has_ann && m.nodes[node].children.len() > ai {
                            let c = m.nodes[node].children[ai];
                            match &m.nodes[c].kind {
                                NodeKind::TsTypeRef { name: Some(t) } => {
                                    self.symbol_tables.insert(
                                        file,
                                        SymbolName::Named(nm.clone()),
                                        Declaration::Alias {
                                            from: SymbolName::Named(nm),
                                            to: t.clone(),
                                        },
                                    );
                                },
                                _ => {},
                            }
                        }
                    },
                }
                proof {
                    assert(self@ =~= spec_store_variable(old(self)@, *m, *file, node as int));
                }
            },
            _ => {
                proof {
                    assert(self@ =~= spec_store_variable(old(self)@, *m, *file, node as int));
                }
            },
        }
    }

    /// Register the import specifiers of the declaration at `node`, from
    /// position `i` on.
    fn store_import_specs(
        &mut self,
        m: &Module,
        res: &ModuleResolver,
        file: &String,
        src: &String,
        node: usize,
        i: usize,
    )
        requires
            m.wf(),
            node < m.count(),
            fac_wf(old(self)@),
        ensures
            fac_wf(final(self)@),
            final(self)@ == spec_store_import_specs(
                old(self)@,
                *m,
                res.entries@,
                *file,
                *src,
                node as int,
                i as int,
            ),
            fac_measure(final(self)@) <= fac_measure(old(self)@),
        decreases m.kids(node as int).len() - i,
    {
        let ghost f0 = self@;
        let n = m.nodes[node].children.len();
        if i >= n {
            proof {
                assert(self@ =~= spec_store_import_specs(
                    f0,
                    *m,
                    res.entries@,
                    *file,
                    *src,
                    node as int,
                    i as int,
                ));
            }
            return;
        }
        let c = m.nodes[node].children[i];
        match &m.nodes[c].kind {
            NodeKind::ImportDefaultSpecifier { local } => {
                match res.resolve(src, file) {
                    Some(p) => {
                        self.symbol_tables.insert(
                            file,
                            SymbolName::Named(local.clone()),
                            Declaration::Import {
                                name: SymbolName::Default,
                                source_file_name: p,
                            },
                        );
                    },
                    None => {
                        self.diagnostics.push(
                            Diagnostic::ModuleResolutionError {
                                file: file.clone(),
                                specifier: src.clone(),
                            },
                        );
                    },
                }
            },
            NodeKind::ImportNamedSpecifier { local, imported } => {
                match res.resolve(src, file) {
                    Some(p) => {
                        let orig = match imported {
                            Some(x) => x.clone(),
                            None => local.clone(),
                        };
                        self.symbol_tables.insert(
                            file,
                            SymbolName::Named(local.clone()),
                            Declaration::Import {
                                name: SymbolName::Named(orig),
                                source_file_name: p,
                            },
                        );
                    },
                    None => {
                        self.diagnostics.push(
                            Diagnostic::ModuleResolutionError {
                                file: file.clone(),
                                specifier: src.clone(),
                            },
                        );
                    },
                }
            },
            _ => {},
        }
        self.store_import_specs(m, res, file, src, node, i + 1);
        proof {
            assert(self@ =~= spec_store_import_specs(
                f0,
                *m,
                res.entries@,
                *file,
                *src,
                node as int,
                i as int,
            ));
        }
    }

    /// Register the export specifiers of the declaration at `node` whose
    /// source resolved to `target`, from position `i` on.
    fn store_export_specs(
        &mut self,
        m: &Module,
        file: &String,
        target: &String,
        node: usize,
        i: usize,
    )
        requires
            m.wf(),
            node < m.count(),
            fac_wf(old(self)@),
        ensures
            fac_wf(final(self)@),
            final(self)@ == spec_store_export_specs(
                old(self)@,
                *m,
                *file,
                *target,
                node as int,
                i as int,
            ),
            fac_measure(final(self)@) <= fac_measure(old(self)@),
        decreases m.kids(node as int).len() - i,
    {
        let ghost f0 = self@;
        let n = m.nodes[node].children.len();
        if i >= n {
            proof {
                assert(self@ =~= spec_store_export_specs(
                    f0,
                    *m,
                    *file,
                    *target,
                    node as int,
                    i as int,
                ));
            }
            return;
        }
        let c = m.nodes[node].children[i];
        match &m.nodes[c].kind {
            NodeKind::ExportSpecifier { orig, exported } => {
                let name = match exported {
                    Some(x) => x.clone(),
                    None => orig.clone(),
                };
                self.symbol_tables.insert(
                    file,
                    SymbolName::Named(name),
                    Declaration::Import {
                        name: SymbolName::Named(orig.clone()),
                        source_file_name: target.clone(),
                    },
                );
            },
            _ => {},
        }
        self.store_export_specs(m, file, target, node, i + 1);
        proof {
            assert(self@ =~= spec_store_export_specs(
                f0,
                *m,
                *file,
                *target,
                node as int,
                i as int,
            ));
        }
    }

    /// Register whatever declaration the node at `node` makes: local type
    /// declarations under their names, imports and re-exports as cross-file
    /// bindings (resolution failures become diagnostics), default exports and
    /// variables per their rules.
    pub fn store_declaration_maybe(
        &mut self,
        m: &Module,
        res: &ModuleResolver,
        file: &String,
        node: usize,
    )
        requires
            m.wf(),
            node < m.count(),
            fac_wf(old(self)@),
        ensures
            fac_wf(final(self)@),
            final(self)@ == spec_store_declaration(
                old(self)@,
                *m,
                res.entries@,
                *file,
                node as int,
            ),
            fac_measure(final(self)@) <= fac_measure(old(self)@),
        decreases m.count() - node, 1int, 0int,
    {
        let ghost f0 = self@;
        match &m.nodes[node].kind {
            NodeKind::ClassDecl { name } => {
                self.symbol_tables.insert(
                    file,
                    SymbolName::Named(name.clone()),
                    Declaration::Type { node },
                );
                proof {
                    assert(self@ =~= spec_store_declaration(
                        f0,
                        *m,
                        res.entries@,
                        *file,
                        node as int,
                    ));
                }
            },
            NodeKind::InterfaceDecl { name } => {
                self.symbol_tables.insert(
                    file,
                    SymbolName::Named(name.clone()),
                    Declaration::Type { node },
                );
                proof {
                    assert(self@ =~= spec_store_declaration(
                        f0,
                        *m,
                        res.entries@,
                        *file,
                        node as int,
                    ));
                }
            },
            NodeKind::TypeAliasDecl { name } => {
                self.symbol_tables.insert(
                    file,
                    SymbolName::Named(name.clone()),
                    Declaration::Type { node },
                );
                proof {
                    assert(self@ =~= spec_store_declaration(
                        f0,
                        *m,
                        res.entries@,
                        *file,
                        node as int,
                    ));
                }
            },
            NodeKind::EnumDecl { name } => {
                self.symbol_tables.insert(
                    file,
                    SymbolName::Named(name.clone()),
                    Declaration::Type { node },
                );
                proof {
                    assert(self@ =~= spec_store_declaration(
                        f0,
                        *m,
                        res.entries@,
                        *file,
                        node as int,
                    ));
                }
            },
            NodeKind::ClassExpr { .. } => {
                self.symbol_tables.insert(
                    file,
                    SymbolName::Default,
                    Declaration::Type { node },
                );
                proof {
                    assert(self@ =~= spec_store_declaration(
                        f0,
                        *m,
                        res.entries@,
                        *file,
                        node as int,
                    ));
                }
            },
            NodeKind::ImportDecl { src } => {
                let src = src.clone();
                self.store_import_specs(m, res, file, &src, node, 0);
                proof {
                    assert(self@ =~= spec_store_declaration(
                        f0,
                        *m,
                        res.entries@,
                        *file,
                        node as int,
                    ));
                }
            },
            NodeKind::NamedExport { src } => {
                match src {
                    Some(s) => {
                        let s = s.clone();
                        match res.resolve(&s, file) {
                            Some(target) => {
                                self.store_export_specs(m, file, &target, node, 0);
                            },
                            None => {
                                self.diagnostics.push(
                                    Diagnostic::ModuleResolutionError {
                                        file: file.clone(),
                                        specifier: s,
                                    },
                                );
                            },
                        }
                    },
                    None => {},
                }
                proof {
                    assert(self@ =~= spec_store_declaration(
                        f0,
                        *m,
                        res.entries@,
                        *file,
                        node as int,
                    ));
                }
            },
            NodeKind::ExportDecl => {
                self.store_decl_kids(m, res, file, node, 0);
                proof {
                    assert(self@ =~= spec_store_declaration(
                        f0,
                        *m,
                        res.entries@,
                        *file,
                        node as int,
                    ));
                }
            },
            NodeKind::ExportDefaultExpr => {
                if m.nodes[node].children.len() > 0 {
                    let c = m.nodes[node].children[0];
                    self.store_default_declaration(m, file, c);
                }
                proof {
                    assert(self@ =~= spec_store_declaration(
                        f0,
                        *m,
                        res.entries@,
                        *file,
                        node as int,
                    ));
                }
            },
            NodeKind::VarDeclarator { .. } => {
                self.store_variable(m, file, node);
                proof {
                    assert(self@ =~= spec_store_declaration(
                        f0,
                        *m,
                        res.entries@,
                        *file,
                        node as int,
                    ));
                }
            },
            _ => {
                proof {
                    assert(self@ =~= spec_store_declaration(
                        f0,
                        *m,
                        res.entries@,
                        *file,
                        node as int,
                    ));
                }
            },
        }
    }

    /// Register each child of `node` in turn, from position `i` on.
    fn store_decl_kids(
        &mut self,
        m: &Module,
        res: &ModuleResolver,
        file: &String,
        node: usize,
        i: usize,
    )
        requires
            m.wf(),
            node < m.count(),
            fac_wf(old(self)@),
        ensures
            fac_wf(final(self)@),
            final(self)@ == spec_store_decl_kids(
                old(self)@,
                *m,
                res.entries@,
                *file,
                node as int,
                i as int,
            ),
            fac_measure(final(self)@) <= fac_measure(old(self)@),
        decreases m.count() - node, 0int, m.kids(node as int).len() - i,
    {
        let ghost f0 = self@;
        let n = m.nodes[node].children.len();
        if i >= n {
            proof {
                assert(self@ =~= spec_store_decl_kids(
                    f0,
                    *m,
                    res.entries@,
                    *file,
                    node as int,
                    i as int,
                ));
            }
            return;
        }
        let c = m.nodes[node].children[i];
        self.store_declaration_maybe(m, res, file, c);
        self.store_decl_kids(m, res, file, node, i + 1);
        proof {
            assert(self@ =~= spec_store_decl_kids(
                f0,
                *m,
                res.entries@,
                *file,
                node as int,
                i as int,
            ));
        }
    }
}

/// How deep nested type references may chain before the walk gives up. The
/// already-defined check breaks reference cycles well before this bound; it
/// exists to make the recursion total.
pub const REF_DEPTH_LIMIT: usize = 64;

/// Materializing the declaration at `node` under `schema_name` (grouped
/// under `ns` when present): skipped when that schema already stands in the
/// document; reported when the allowance is out; otherwise the schema is
/// written — at the top level, or as a property of the namespace's grouping
/// object schema — and each type reference found inside is given a schema of
/// its own through `spec_drs`, one nesting level deeper.
pub open spec fn spec_map_schema(
    st: EngState,
    m: Module,
    file: String,
    node: int,
    schema_name: String,
    ns: Option<String>,
    depth: nat,
) -> EngState
    decreases depth, 0int, 0int,
{
    let f = st.0;
    let d = st.1;
    if spec_defined_has(f.defined, ns, schema_name@) {
        st
    } else if f.budget == 0 {
        (fac_diag(f, Diagnostic::WorkLimitExceeded { name: Some(schema_name) }), d)
    } else if depth == 0 {
        (fac_diag(f, Diagnostic::WorkLimitExceeded { name: Some(schema_name) }), d)
    } else {
        let f1 = FacView {
            budget: (f.budget - 1) as nat,
            defined: f.defined.push(DefinedSchema { namespace: ns, name: schema_name }),
            ..f
        };
        let s = spec_materialize(m, f.tables, file@, ns, node);
        let d1 = match ns {
            Some(nsname) => {
                let (da, idx) = spec_component_index(d, nsname);
                OpenApiView {
                    paths: da.paths,
                    components: da.components.update(
                        idx,
                        crate::schema::ComponentView {
                            name: da.components[idx].name,
                            schema: SchemaView {
                                data_type: Some(DataType::Object),
                                ..spec_set_property(da.components[idx].schema, schema_name, s)
                            },
                        },
                    ),
                }
            },
            None => {
                let (da, idx) = spec_component_index(d, schema_name);
                OpenApiView {
                    paths: da.paths,
                    components: da.components.update(
                        idx,
                        crate::schema::ComponentView { name: da.components[idx].name, schema: s },
                    ),
                }
            },
        };
        spec_define_refs(
            (f1, d1),
            m,
            file,
            ns,
            spec_refs(m, f.tables, file@, node),
            0,
            (depth - 1) as nat,
        )
    }
}

/// Giving each collected reference name a schema of its own, in order.
pub open spec fn spec_define_refs(
    st: EngState,
    m: Module,
    file: String,
    ns: Option<String>,
    refs: Seq<String>,
    i: int,
    depth: nat,
) -> EngState
    decreases depth, 2int, refs.len() - i,
{
    if i < 0 || i >= refs.len() {
        st
    } else {
        spec_define_refs(
            spec_drs(st, m, file, refs[i], refs[i], ns, depth),
            m,
            file,
            ns,
            refs,
            i + 1,
            depth,
        )
    }
}

/// Requesting a schema called `schema_name` for the local name `target_name`:
/// the alias walk runs in `file`'s table; a terminal type declaration is
/// materialized on the spot, an import or re-export becomes a deferred
/// obligation against its source file, and anything else — an undissolved
/// alias or a miss — is reported as a missing declaration.
pub open spec fn spec_drs(
    st: EngState,
    m: Module,
    file: String,
    target_name: String,
    schema_name: String,
    ns: Option<String>,
    depth: nat,
) -> EngState
    decreases depth, 1int, 0int,
{
    let f = st.0;
    let d = st.1;
    match root_decl(f.tables, file@, SymbolName::Named(target_name)) {
        Some(Declaration::Type { node }) => if node < m.count() {
            spec_map_schema(st, m, file, node as int, schema_name, ns, depth)
        } else {
            st
        },
        Some(Declaration::Import { name, source_file_name }) => (
            spec_defer_type(
                f,
                DeferredType {
                    source_file_name,
                    schema_name,
                    exported_name: name,
                    namespace: ns,
                },
            ),
            d,
        ),
        Some(Declaration::Export { name, source_file_name }) => (
            spec_defer_type(
                f,
                DeferredType {
                    source_file_name,
                    schema_name,
                    exported_name: name,
                    namespace: ns,
                },
            ),
            d,
        ),
        _ => (fac_diag(f, Diagnostic::MissingDeclaration { name: target_name }), d),
    }
}

impl OpenApiFactory {
    /// Materialize the declaration at `node` under `schema_name` and give
    /// the references inside it schemas of their own.
    fn materialize_and_place(
        &mut self,
        doc: &mut OpenApi,
        m: &Module,
        file: &String,
        node: usize,
        schema_name: &String,
        ns: &Option<String>,
        depth: usize,
    )
        requires
            m.wf(),
            node < m.count(),
            fac_wf(old(self)@),
        ensures
            fac_wf(final(self)@),
            (final(self)@, final(doc)@) == spec_map_schema(
                (old(self)@, old(doc)@),
                *m,
                *file,
                node as int,
                *schema_name,
                *ns,
                depth as nat,
            ),
            fac_measure(final(self)@) <= fac_measure(old(self)@),
            final(doc)@.paths == old(doc)@.paths,
            final(self)@.tables == old(self)@.tables,
        decreases depth, 0int, 0int,
    {
        let ghost st0: EngState = (self@, doc@);
        if self.defined_has(ns, schema_name) {
            proof {
                assert((self@, doc@) =~~= spec_map_schema(
                    st0,
                    *m,
                    *file,
                    node as int,
                    *schema_name,
                    *ns,
                    depth as nat,
                ));
            }
            return;
        }
        if self.budget == 0 || depth == 0 {
            self.diagnostics.push(
                Diagnostic::WorkLimitExceeded { name: Some(schema_name.clone()) },
            );
            proof {
                assert((self@, doc@) =~~= spec_map_schema(
                    st0,
                    *m,
                    *file,
                    node as int,
                    *schema_name,
                    *ns,
                    depth as nat,
                ));
            }
            return;
        }
        self.budget = self.budget - 1;
        self.defined.push(
            DefinedSchema {
                namespace: match ns {
                    Some(x) => Some(x.clone()),
                    None => None,
                },
                name: schema_name.clone(),
            },
        );
        let mut refs: Vec<String> = Vec::new();
        let s = materialize_type(m, &self.symbol_tables, file, ns, node, &mut refs);
        match ns {
            Some(nsname) => {
                let idx = doc.component_index(nsname);
                doc.set_component_property(idx, schema_name, s);
            },
            None => {
                let idx = doc.component_index(schema_name);
                doc.set_component_schema(idx, s);
            },
        }
        let ghost st_mid: EngState = (self@, doc@);
        self.define_refs(doc, m, file, ns, &refs, 0, depth - 1);
        proof {
            assert((self@, doc@) =~~= spec_map_schema(
                st0,
                *m,
                *file,
                node as int,
                *schema_name,
                *ns,
                depth as nat,
            ));
        }
    }

    /// Give each reference name collected by the materializer a schema of
    /// its own, in order.
    fn define_refs(
        &mut self,
        doc: &mut OpenApi,
        m: &Module,
        file: &String,
        ns: &Option<String>,
        refs: &Vec<String>,
        i: usize,
        depth: usize,
    )
        requires
            m.wf(),
            fac_wf(old(self)@),
        ensures
            fac_wf(final(self)@),
            (final(self)@, final(doc)@) == spec_define_refs(
                (old(self)@, old(doc)@),
                *m,
                *file,
                *ns,
                refs@,
                i as int,
                depth as nat,
            ),
            fac_measure(final(self)@) <= fac_measure(old(self)@),
            final(doc)@.paths == old(doc)@.paths,
            final(self)@.tables == old(self)@.tables,
        decreases depth, 2int, refs@.len() - i,
    {
        let ghost st0: EngState = (self@, doc@);
        if i >= refs.len() {
            proof {
                assert((self@, doc@) =~~= spec_define_refs(
                    st0,
                    *m,
                    *file,
                    *ns,
                    refs@,
                    i as int,
                    depth as nat,
                ));
            }
            return;
        }
        let r = refs[i].clone();
        self.define_referenced_schema_at(doc, m, file, &r, &r, ns, depth);
        self.define_refs(doc, m, file, ns, refs, i + 1, depth);
        proof {
            assert((self@, doc@) =~~= spec_define_refs(
                st0,
                *m,
                *file,
                *ns,
                refs@,
                i as int,
                depth as nat,
            ));
        }
    }

    /// Request a schema called `schema_name` for the local name `target_name`,
    /// at the given remaining nesting depth.
    fn define_referenced_schema_at(
        &mut self,
        doc: &mut OpenApi,
        m: &Module,
        file: &String,
        target_name: &String,
        schema_name: &String,
        ns: &Option<String>,
        depth: usize,
    )
        requires
            m.wf(),
            fac_wf(old(self)@),
        ensures
            fac_wf(final(self)@),
            (final(self)@, final(doc)@) == spec_drs(
                (old(self)@, old(doc)@),
                *m,
                *file,
                *target_name,
                *schema_name,
                *ns,
                depth as nat,
            ),
            fac_measure(final(self)@) <= fac_measure(old(self)@),
            final(doc)@.paths == old(doc)@.paths,
            final(self)@.tables == old(self)@.tables,
        decreases depth, 1int, 0int,
    {
        let ghost st0: EngState = (self@, doc@);
        match self.symbol_tables.get_root_declaration(file, &SymbolName::Named(target_name.clone()))
        {
            Some(Declaration::Type { node }) => {
                if node < m.len() {
                    self.materialize_and_place(doc, m, file, node, schema_name, ns, depth);
                }
                proof {
                    assert((self@, doc@) =~~= spec_drs(
                        st0,
                        *m,
                        *file,
                        *target_name,
                        *schema_name,
                        *ns,
                        depth as nat,
                    ));
                }
            },
            Some(Declaration::Import { name, source_file_name }) => {
                self.defer_type(
                    DeferredType {
                        source_file_name,
                        schema_name: schema_name.clone(),
                        exported_name: name,
                        namespace: match ns {
                            Some(x) => Some(x.clone()),
                            None => None,
                        },
                    },
                );
                proof {
                    assert((self@, doc@) =~~= spec_drs(
                        st0,
                        *m,
                        *file,
                        *target_name,
                        *schema_name,
                        *ns,
                        depth as nat,
                    ));
                }
            },
            Some(Declaration::Export { name, source_file_name }) => {
                self.defer_type(
                    DeferredType {
                        source_file_name,
                        schema_name: schema_name.clone(),
                        exported_name: name,
                        namespace: match ns {
                            Some(x) => Some(x.clone()),
                            None => None,
                        },
                    },
                );
                proof {
                    assert((self@, doc@) =~~= spec_drs(
                        st0,
                        *m,
                        *file,
                        *target_name,
                        *schema_name,
                        *ns,
                        depth as nat,
                    ));
                }
            },
            _ => {
                self.diagnostics.push(
                    Diagnostic::MissingDeclaration { name: target_name.clone() },
                );
                proof {
                    assert((self@, doc@) =~~= spec_drs(
                        st0,
                        *m,
                        *file,
                        *target_name,
                        *schema_name,
                        *ns,
                        depth as nat,
                    ));
                }
            },
        }
    }

    /// Request a schema called `schema_name` for the local name `target_name`:
    /// a terminal type declaration is materialized on the spot, an import or
    /// re-export becomes a deferred obligation, and anything else is
    /// reported as a missing declaration.
    pub fn define_referenced_schema(
        &mut self,
        doc: &mut OpenApi,
        m: &Module,
        file: &String,
        target_name: &String,
        schema_name: &String,
        ns: &Option<String>,
    )
        requires
            m.wf(),
            fac_wf(old(self)@),
        ensures
            fac_wf(final(self)@),
            (final(self)@, final(doc)@) == spec_drs(
                (old(self)@, old(doc)@),
                *m,
                *file,
                *target_name,
                *schema_name,
                *ns,
                REF_DEPTH_LIMIT as nat,
            ),
            fac_measure(final(self)@) <= fac_measure(old(self)@),
            final(doc)@.paths == old(doc)@.paths,
            final(self)@.tables == old(self)@.tables,
    {
        self.define_referenced_schema_at(doc, m, file, target_name, schema_name, ns, REF_DEPTH_LIMIT);
    }
}

/// Opening and closing a handler scope on `file`'s table.
pub open spec fn fac_child_scope(f: FacView, file: String) -> FacView {
    FacView { tables: spec_add_child_scope(f.tables, file), ..f }
}

pub open spec fn fac_parent_scope(f: FacView, file: Seq<char>) -> FacView {
    FacView { tables: spec_parent_scope(f.tables, file), ..f }
}

/// The document keeps every path and operation slot it had (it may grow).
pub open spec fn same_shape(d1: OpenApiView, d2: OpenApiView) -> bool {
    &&& d2.paths.len() == d1.paths.len()
    &&& forall|p: int|
        0 <= p < d1.paths.len() ==> (#[trigger] d2.paths[p]).operations.len()
            == d1.paths[p].operations.len()
}

/// The schema a decoded marker payload asks for, and the root name to define
/// when the payload references a user type.
pub open spec fn spec_payload_schema(
    f: FacView,
    m: Module,
    file: String,
    node: int,
    ns: Option<String>,
) -> (SchemaView, Option<String>) {
    let fmt = spec_marker_format(m, node);
    match spec_marker_payload(m, node) {
        PayloadKind::Prim(dt) => (
            SchemaView { data_type: Some(dt), format: fmt, ..crate::schema::empty_schema() },
            None,
        ),
        PayloadKind::NamedRef(local) => match crate::declarations::resolved_key(
            f.tables,
            file@,
            SymbolName::Named(local),
        ) {
            SymbolName::Named(root) => (
                SchemaView {
                    reference: Some(root),
                    namespace: ns,
                    format: fmt,
                    ..crate::schema::empty_schema()
                },
                Some(root),
            ),
            SymbolName::Default => (
                SchemaView { format: fmt, ..crate::schema::empty_schema() },
                None,
            ),
        },
        PayloadKind::Opaque => (
            SchemaView { format: fmt, ..crate::schema::empty_schema() },
            None,
        ),
    }
}

/// Decoding one endpoint marker into a request parameter at `loc`: the
/// parameter is named by the enclosing property or formal parameter (a
/// marker without one is skipped), its schema comes from the positional type
/// arguments, and a referenced user type is given a schema of its own.
pub open spec fn spec_add_param_details(
    st: EngState,
    m: Module,
    file: String,
    op: OpHandle,
    node: int,
    loc: ParamLocation,
) -> EngState {
    match spec_parameter_name(m, node) {
        None => st,
        Some(pn) => {
            let ns = spec_marker_namespace(m, node);
            let (schema, root) = spec_payload_schema(st.0, m, file, node, ns);
            let st1 = match root {
                Some(r) => spec_drs(st, m, file, r, r, ns, REF_DEPTH_LIMIT as nat),
                None => st,
            };
            let pv = crate::schema::ParamView {
                name: Some(pn),
                location: Some(loc),
                required: spec_marker_required(m, node),
                schema,
            };
            (
                st1.0,
                spec_set_op(
                    st1.1,
                    op,
                    crate::schema::OperationView {
                        parameters: op_at(st1.1, op).parameters.push(pv),
                        ..op_at(st1.1, op)
                    },
                ),
            )
        },
    }
}

/// Decoding a `BodyParam` marker into the operation's request body.
pub open spec fn spec_add_body_param_details(
    st: EngState,
    m: Module,
    file: String,
    op: OpHandle,
    node: int,
) -> EngState {
    let ns = spec_marker_namespace(m, node);
    let (schema, root) = spec_payload_schema(st.0, m, file, node, ns);
    let st1 = match root {
        Some(r) => spec_drs(st, m, file, r, r, ns, REF_DEPTH_LIMIT as nat),
        None => st,
    };
    let pv = crate::schema::ParamView {
        name: None,
        location: None,
        required: spec_marker_required(m, node),
        schema,
    };
    (
        st1.0,
        spec_set_op(
            st1.1,
            op,
            crate::schema::OperationView { body: Some(pv), ..op_at(st1.1, op) },
        ),
    )
}

/// Walking a handler parameter's type for endpoint markers: a type reference
/// named like a marker is decoded onto the operation; one that resolves to an
/// import becomes a deferred parameter obligation against that file; every
/// other node is walked through.
pub open spec fn spec_add_request_params(
    st: EngState,
    m: Module,
    file: String,
    op: OpHandle,
    node: int,
) -> EngState
    decreases m.count() - node, 1int, 0int,
        when m.wf() && 0 <= node < m.count()
{
    spec_arp_kids(st, m, file, op, node, 0)
}

pub open spec fn spec_arp_kids(
    st: EngState,
    m: Module,
    file: String,
    op: OpHandle,
    node: int,
    i: int,
) -> EngState
    decreases m.count() - node, 0int, m.kids(node).len() - i,
        when m.wf() && 0 <= node < m.count() && 0 <= i
{
    if i >= m.kids(node).len() {
        st
    } else {
        let c = m.kids(node)[i] as int;
        let st1 = match m.node(c).kind {
            NodeKind::TsTypeRef { name: Some(n) } => if n@ == "BodyParam"@ {
                spec_add_body_param_details(st, m, file, op, c)
            } else if n@ == "Header"@ {
                spec_add_param_details(st, m, file, op, c, ParamLocation::Header)
            } else if n@ == "QueryParam"@ {
                spec_add_param_details(st, m, file, op, c, ParamLocation::Query)
            } else if n@ == "RouteParam"@ {
                spec_add_param_details(st, m, file, op, c, ParamLocation::Route)
            } else {
                match root_decl(st.0.tables, file@, SymbolName::Named(n)) {
                    Some(Declaration::Import { name, source_file_name }) => (
                        spec_defer_operation_type(
                            st.0,
                            DeferredOperationType {
                                source_file_name,
                                operation: op,
                                exported_name: name,
                            },
                        ),
                        st.1,
                    ),
                    _ => st,
                }
            },
            _ => spec_add_request_params(st, m, file, op, c),
        };
        spec_arp_kids(st1, m, file, op, node, i + 1)
    }
}

impl OpenApiFactory {
    /// Decode one endpoint marker into a request parameter at `loc`.
    fn add_param_details(
        &mut self,
        doc: &mut OpenApi,
        m: &Module,
        file: &String,
        op: OpHandle,
        node: usize,
        loc: ParamLocation,
    )
        requires
            m.wf(),
            node < m.count(),
            fac_wf(old(self)@),
            op_in_bounds(old(doc)@, op),
        ensures
            fac_wf(final(self)@),
            (final(self)@, final(doc)@) == spec_add_param_details(
                (old(self)@, old(doc)@),
                *m,
                *file,
                op,
                node as int,
                loc,
            ),
            fac_measure(final(self)@) <= fac_measure(old(self)@),
            same_shape(old(doc)@, final(doc)@),
            final(self)@.tables == old(self)@.tables,
    {
        let ghost st0: EngState = (self@, doc@);
        let pname = get_parameter_name(m, node);
        match pname {
            None => {
                proof {
                    assert((self@, doc@) =~~= spec_add_param_details(
                        st0,
                        *m,
                        *file,
                        op,
                        node as int,
                        loc,
                    ));
                }
            },
            Some(pn) => {
                let dec = decode_marker(m, node);
                let mut schema = ApiSchema::new();
                schema.format = dec.format;
                let root: Option<String> = match dec.payload {
                    PayloadKind::Prim(dt) => {
                        schema.data_type = Some(dt);
                        None
                    },
                    PayloadKind::NamedRef(local) => {
                        match self.symbol_tables.find_type_name(
                            &SymbolName::Named(local),
                            file,
                        ) {
                            SymbolName::Named(r) => {
                                schema.reference = Some(r.clone());
                                schema.namespace = match &dec.namespace {
                                    Some(x) => Some(x.clone()),
                                    None => None,
                                };
                                Some(r)
                            },
                            SymbolName::Default => None,
                        }
                    },
                    PayloadKind::Opaque => None,
                };
                match &root {
                    Some(r) => {
                        self.define_referenced_schema(doc, m, file, r, r, &dec.namespace);
                    },
                    None => {},
                }
                let param = ApiParam {
                    name: Some(pn),
                    location: Some(loc),
                    required: dec.required,
                    schema,
                };
                doc.push_param(op, param);
                proof {
                    assert((self@, doc@) =~~= spec_add_param_details(
                        st0,
                        *m,
                        *file,
                        op,
                        node as int,
                        loc,
                    ));
                }
            },
        }
    }

    /// Decode a `BodyParam` marker into the operation's request body.
    fn add_body_param_details(
        &mut self,
        doc: &mut OpenApi,
        m: &Module,
        file: &String,
        op: OpHandle,
        node: usize,
    )
        requires
            m.wf(),
            node < m.count(),
            fac_wf(old(self)@),
            op_in_bounds(old(doc)@, op),
        ensures
            fac_wf(final(self)@),
            (final(self)@, final(doc)@) == spec_add_body_param_details(
                (old(self)@, old(doc)@),
                *m,
                *file,
                op,
                node as int,
            ),
            fac_measure(final(self)@) <= fac_measure(old(self)@),
            same_shape(old(doc)@, final(doc)@),
            final(self)@.tables == old(self)@.tables,
    {
        let ghost st0: EngState = (self@, doc@);
        let dec = decode_marker(m, node);
        let mut schema = ApiSchema::new();
        schema.format = dec.format;
        let root: Option<String> = match dec.payload {
            PayloadKind::Prim(dt) => {
                schema.data_type = Some(dt);
                None
            },
            PayloadKind::NamedRef(local) => {
                match self.symbol_tables.find_type_name(&SymbolName::Named(local), file) {
                    SymbolName::Named(r) => {
                        schema.reference = Some(r.clone());
                        schema.namespace = match &dec.namespace {
                            Some(x) => Some(x.clone()),
                            None => None,
                        };
                        Some(r)
                    },
                    SymbolName::Default => None,
                }
            },
            PayloadKind::Opaque => None,
        };
        match &root {
            Some(r) => {
                self.define_referenced_schema(doc, m, file, r, r, &dec.namespace);
            },
            None => {},
        }
        let param = ApiParam { name: None, location: None, required: dec.required, schema };
        doc.set_body(op, param);
        proof {
            assert((self@, doc@) =~~= spec_add_body_param_details(
                st0,
                *m,
                *file,
                op,
                node as int,
            ));
        }
    }

    /// Walk a handler parameter's type for endpoint markers.
    pub fn add_request_params(
        &mut self,
        doc: &mut OpenApi,
        m: &Module,
        file: &String,
        op: OpHandle,
        node: usize,
    )
        requires
            m.wf(),
            node < m.count(),
            fac_wf(old(self)@),
            op_in_bounds(old(doc)@, op),
        ensures
            fac_wf(final(self)@),
            (final(self)@, final(doc)@) == spec_add_request_params(
                (old(self)@, old(doc)@),
                *m,
                *file,
                op,
                node as int,
            ),
            fac_measure(final(self)@) <= fac_measure(old(self)@),
            same_shape(old(doc)@, final(doc)@),
            final(self)@.tables == old(self)@.tables,
        decreases m.count() - node, 1int, 0int,
    {
        self.arp_kids(doc, m, file, op, node, 0);
    }

    fn arp_kids(
        &mut self,
        doc: &mut OpenApi,
        m: &Module,
        file: &String,
        op: OpHandle,
        node: usize,
        i: usize,
    )
        requires
            m.wf(),
            node < m.count(),
            fac_wf(old(self)@),
            op_in_bounds(old(doc)@, op),
        ensures
            fac_wf(final(self)@),
            (final(self)@, final(doc)@) == spec_arp_kids(
                (old(self)@, old(doc)@),
                *m,
                *file,
                op,
                node as int,
                i as int,
            ),
            fac_measure(final(self)@) <= fac_measure(old(self)@),
            same_shape(old(doc)@, final(doc)@),
            final(self)@.tables == old(self)@.tables,
        decreases m.count() - node, 0int, m.kids(node as int).len() - i,
    {
        let ghost st0: EngState = (self@, doc@);
        let n = m.nodes[node].children.len();
        if i >= n {
            proof {
                assert((self@, doc@) =~~= spec_arp_kids(
                    st0,
                    *m,
                    *file,
                    op,
                    node as int,
                    i as int,
                ));
            }
            return;
        }
        let c = m.nodes[node].children[i];
        let mut matched = false;
        match &m.nodes[c].kind {
            NodeKind::TsTypeRef { name: Some(n_) } => {
                matched = true;
                if str_eq(n_, "BodyParam") {
                    self.add_body_param_details(doc, m, file, op, c);
                } else if str_eq(n_, "Header") {
                    self.add_param_details(doc, m, file, op, c, ParamLocation::Header);
                } else if str_eq(n_, "QueryParam") {
                    self.add_param_details(doc, m, file, op, c, ParamLocation::Query);
                } else if str_eq(n_, "RouteParam") {
                    self.add_param_details(doc, m, file, op, c, ParamLocation::Route);
                } else {
                    match self.symbol_tables.get_root_declaration(
                        file,
                        &SymbolName::Named(n_.clone()),
                    ) {
                        Some(Declaration::Import { name, source_file_name }) => {
                            self.defer_operation_type(
                                DeferredOperationType {
                                    source_file_name,
                                    operation: op,
                                    exported_name: name,
                                },
                            );
                        },
                        _ => {},
                    }
                }
            },
            _ => {},
        }
        if !matched {
            self.add_request_params(doc, m, file, op, c);
        }
        self.arp_kids(doc, m, file, op, node, i + 1);
        proof {
            assert((self@, doc@) =~~= spec_arp_kids(st0, *m, *file, op, node as int, i as int));
        }
    }
}

/// Whether the node is a call whose callee is the identifier `Response`.
pub open spec fn is_response_call(m: Module, c: int) -> bool {
    &&& m.node(c).kind is CallExpr
    &&& m.kids(c).len() > 0
    &&& match m.node(m.kids(c)[0] as int).kind {
        NodeKind::Ident { sym } => sym@ == "Response"@,
        _ => false,
    }
}

/// Whether the node is a call whose callee is the identifier `Path`.
pub open spec fn is_path_call(m: Module, c: int) -> bool {
    &&& m.node(c).kind is CallExpr
    &&& m.kids(c).len() > 0
    &&& match m.node(m.kids(c)[0] as int).kind {
        NodeKind::Ident { sym } => sym@ == "Path"@,
        _ => false,
    }
}

/// The root name of the type a response value stands for: the class of a
/// `new X(...)`, a bare identifier, or the target of an `as`/angle-bracket
/// cast, resolved through the alias walk. `None` when no name can be read
/// off or the walk lands on the default binding.
pub open spec fn spec_response_root(f: FacView, m: Module, file: String, a0: int) -> Option<
    String,
> {
    let local: Option<String> = match m.node(a0).kind {
        NodeKind::Ident { sym } => Some(sym),
        NodeKind::NewExpr => if m.kids(a0).len() > 0 {
            match m.node(m.kids(a0)[0] as int).kind {
                NodeKind::Ident { sym } => Some(sym),
                _ => None,
            }
        } else {
            None
        },
        NodeKind::TsAsExpr | NodeKind::TsTypeAssertion => if m.kids(a0).len() > 1 {
            match m.node(m.kids(a0)[1] as int).kind {
                NodeKind::TsTypeRef { name } => name,
                _ => None,
            }
        } else {
            None
        },
        _ => None,
    };
    match local {
        Some(n) => match crate::declarations::resolved_key(f.tables, file@, SymbolName::Named(n)) {
            SymbolName::Named(root) => Some(root),
            SymbolName::Default => None,
        },
        None => None,
    }
}

/// Registering one `Response(value, options)` call on the operation: the
/// value's type gets a schema (requested under the options' namespace), and
/// the response itself is keyed by the options' status code — present
/// options without a status code register nothing.
pub open spec fn spec_add_response(
    st: EngState,
    m: Module,
    file: String,
    op: OpHandle,
    node: int,
) -> EngState {
    let opts: Option<ResponseOptions> = if m.kids(node).len() > 2 && m.node(
        m.kids(node)[2] as int,
    ).kind is ObjectLit {
        Some(spec_response_options(m, m.kids(node)[2] as int))
    } else {
        None
    };
    let ns: Option<String> = match opts {
        Some(o) => o.namespace,
        None => None,
    };
    let root: Option<String> = if m.kids(node).len() > 1 {
        spec_response_root(st.0, m, file, m.kids(node)[1] as int)
    } else {
        None
    };
    let st1 = match root {
        Some(r) => spec_drs(st, m, file, r, r, ns, REF_DEPTH_LIMIT as nat),
        None => st,
    };
    match opts {
        Some(o) => match o.status_code {
            Some(sc) => (
                st1.0,
                spec_set_op(
                    st1.1,
                    op,
                    crate::schema::OperationView {
                        responses: op_at(st1.1, op).responses.push(
                            ApiResponse {
                                status_code: sc,
                                description: o.description,
                                example: o.example,
                                schema_ref: root,
                                namespace: o.namespace,
                            },
                        ),
                        ..op_at(st1.1, op)
                    },
                ),
            ),
            None => st1,
        },
        None => st1,
    }
}

/// Searching a handler body for `Response(...)` calls: every node visited
/// registers whatever declaration it makes (handler-local bindings shadow
/// file-level ones inside the open scope), and each response call is
/// registered on the operation.
pub open spec fn spec_find_response(
    st: EngState,
    m: Module,
    res: Seq<ResolutionEntry>,
    file: String,
    op: OpHandle,
    node: int,
) -> EngState
    decreases m.count() - node, 1int, 0int,
        when m.wf() && 0 <= node < m.count()
{
    spec_fr_kids(st, m, res, file, op, node, 0)
}

pub open spec fn spec_fr_kids(
    st: EngState,
    m: Module,
    res: Seq<ResolutionEntry>,
    file: String,
    op: OpHandle,
    node: int,
    i: int,
) -> EngState
    decreases m.count() - node, 0int, m.kids(node).len() - i,
        when m.wf() && 0 <= node < m.count() && 0 <= i
{
    if i >= m.kids(node).len() {
        st
    } else {
        let c = m.kids(node)[i] as int;
        let st1 = (spec_store_declaration(st.0, m, res, file, c), st.1);
        let st2 = if is_response_call(m, c) {
            spec_add_response(st1, m, file, op, c)
        } else {
            spec_find_response(st1, m, res, file, op, c)
        };
        spec_fr_kids(st2, m, res, file, op, node, i + 1)
    }
}

/// Elaborating a route handler onto its operation: each formal parameter is
/// walked for endpoint markers, then the body is searched for responses
/// inside a scope of its own, so handler-local bindings do not leak.
pub open spec fn spec_add_request_details(
    st: EngState,
    m: Module,
    res: Seq<ResolutionEntry>,
    file: String,
    op: OpHandle,
    handler: int,
) -> EngState {
    let limit: int = match m.node(handler).kind {
        NodeKind::ArrowExpr { n_params } => if n_params <= m.kids(handler).len() {
            n_params as int
        } else {
            m.kids(handler).len() as int
        },
        _ => 0,
    };
    let st1 = spec_ard_params(st, m, file, op, handler, 0, limit);
    let st2 = (fac_child_scope(st1.0, file), st1.1);
    let st3 = spec_find_response(st2, m, res, file, op, handler);
    (fac_parent_scope(st3.0, file@), st3.1)
}

pub open spec fn spec_ard_params(
    st: EngState,
    m: Module,
    file: String,
    op: OpHandle,
    handler: int,
    i: int,
    limit: int,
) -> EngState
    decreases limit - i,
        when m.wf() && 0 <= handler < m.count() && 0 <= i && limit <= m.kids(handler).len()
{
    if i >= limit {
        st
    } else {
        spec_ard_params(
            spec_add_request_params(st, m, file, op, m.kids(handler)[i] as int),
            m,
            file,
            op,
            handler,
            i + 1,
            limit,
        )
    }
}

/// Registering one `Path(handler, options)` call: with usable `method` and
/// `path` options the operation is created (or found) and tagged, and the
/// handler is elaborated onto it; otherwise the endpoint is skipped with a
/// diagnostic.
pub open spec fn spec_add_path(
    st: EngState,
    m: Module,
    res: Seq<ResolutionEntry>,
    file: String,
    node: int,
) -> EngState {
    let opts = if m.kids(node).len() >= 2 {
        spec_path_options(m, m.kids(node)[m.kids(node).len() - 1] as int)
    } else {
        crate::options::empty_path_options()
    };
    if m.kids(node).len() >= 2 && opts.method is Some && opts.path is Some {
        let me = opts.method->0;
        let pa = opts.path->0;
        let (d1, pidx) = spec_path(st.1, pa);
        let (d2, oidx) = spec_add_operation(d1, pidx, me);
        let h = OpHandle { path_idx: pidx as usize, op_idx: oidx as usize };
        let d3 = spec_set_op(
            d2,
            h,
            crate::schema::OperationView { tags: opts.tags, ..op_at(d2, h) },
        );
        spec_add_request_details((st.0, d3), m, res, file, h, m.kids(node)[1] as int)
    } else {
        (fac_diag(st.0, Diagnostic::MalformedEndpoint { file }), st.1)
    }
}

/// Walking a file for `Path(...)` calls: every node visited registers
/// whatever declaration it makes; each `Path` call is processed inside a
/// scope of its own.
pub open spec fn spec_find_paths(
    st: EngState,
    m: Module,
    res: Seq<ResolutionEntry>,
    file: String,
    node: int,
) -> EngState
    decreases m.count() - node, 1int, 0int,
        when m.wf() && 0 <= node < m.count()
{
    spec_fp_kids((spec_store_declaration(st.0, m, res, file, node), st.1), m, res, file, node, 0)
}

pub open spec fn spec_fp_kids(
    st: EngState,
    m: Module,
    res: Seq<ResolutionEntry>,
    file: String,
    node: int,
    i: int,
) -> EngState
    decreases m.count() - node, 0int, m.kids(node).len() - i,
        when m.wf() && 0 <= node < m.count() && 0 <= i
{
    if i >= m.kids(node).len() {
        st
    } else {
        let c = m.kids(node)[i] as int;
        let st1 = if is_path_call(m, c) {
            let sta = (fac_child_scope(st.0, file), st.1);
            let stb = spec_add_path(sta, m, res, file, c);
            (fac_parent_scope(stb.0, file@), stb.1)
        } else {
            spec_find_paths(st, m, res, file, c)
        };
        spec_fp_kids(st1, m, res, file, node, i + 1)
    }
}

impl OpenApiFactory {
    /// Register one `Response(value, options)` call on the operation.
    fn add_response(
        &mut self,
        doc: &mut OpenApi,
        m: &Module,
        file: &String,
        op: OpHandle,
        node: usize,
    )
        requires
            m.wf(),
            node < m.count(),
            fac_wf(old(self)@),
            op_in_bounds(old(doc)@, op),
        ensures
            fac_wf(final(self)@),
            (final(self)@, final(doc)@) == spec_add_response(
                (old(self)@, old(doc)@),
                *m,
                *file,
                op,
                node as int,
            ),
            fac_measure(final(self)@) <= fac_measure(old(self)@),
            same_shape(old(doc)@, final(doc)@),
            final(self)@.tables == old(self)@.tables,
    {
        let ghost st0: EngState = (self@, doc@);
        let kids = &m.nodes[node].children;
        let opts: Option<ResponseOptions> = if kids.len() > 2 {
            let a1 = kids[2];
            match &m.nodes[a1].kind {
                NodeKind::ObjectLit => Some(get_response_options(m, a1)),
                _ => None,
            }
        } else {
            None
        };
        let ns: Option<String> = match &opts {
            Some(o) => match &o.namespace {
                Some(x) => Some(x.clone()),
                None => None,
            },
            None => None,
        };
        let root: Option<String> = if kids.len() > 1 {
            let a0 = kids[1];
            let local: Option<String> = match &m.nodes[a0].kind {
                NodeKind::Ident { sym } => Some(sym.clone()),
                NodeKind::NewExpr => {
                    if m.nodes[a0].children.len() > 0 {
                        let cc = m.nodes[a0].children[0];
                        match &m.nodes[cc].kind {
                            NodeKind::Ident { sym } => Some(sym.clone()),
                            _ => None,
                        }
                    } else {
                        None
                    }
                },
                NodeKind::TsAsExpr | NodeKind::TsTypeAssertion => {
                    if m.nodes[a0].children.len() > 1 {
                        let cc = m.nodes[a0].children[1];
                        match &m.nodes[cc].kind {
                            NodeKind::TsTypeRef { name } => match name {
                                Some(n) => Some(n.clone()),
                                None => None,
                            },
                            _ => None,
                        }
                    } else {
                        None
                    }
                },
                _ => None,
            };
            match local {
                Some(n) => {
                    match self.symbol_tables.find_type_name(&SymbolName::Named(n), file) {
                        SymbolName::Named(r) => Some(r),
                        SymbolName::Default => None,
                    }
                },
                None => None,
            }
        } else {
            None
        };
        match &root {
            Some(r) => {
                self.define_referenced_schema(doc, m, file, r, r, &ns);
            },
            None => {},
        }
        match opts {
            Some(o) => {
                match o.status_code {
                    Some(sc) => {
                        doc.push_response(
                            op,
                            ApiResponse {
                                status_code: sc,
                                description: o.description,
                                example: o.example,
                                schema_ref: root,
                                namespace: o.namespace,
                            },
                        );
                    },
                    None => {},
                }
            },
            None => {},
        }
        proof {
            assert((self@, doc@) =~~= spec_add_response(st0, *m, *file, op, node as int));
        }
    }

    /// Search a handler body for `Response(...)` calls.
    fn find_response(
        &mut self,
        doc: &mut OpenApi,
        m: &Module,
        res: &ModuleResolver,
        file: &String,
        op: OpHandle,
        node: usize,
    )
        requires
            m.wf(),
            node < m.count(),
            fac_wf(old(self)@),
            op_in_bounds(old(doc)@, op),
        ensures
            fac_wf(final(self)@),
            (final(self)@, final(doc)@) == spec_find_response(
                (old(self)@, old(doc)@),
                *m,
                res.entries@,
                *file,
                op,
                node as int,
            ),
            fac_measure(final(self)@) <= fac_measure(old(self)@),
            same_shape(old(doc)@, final(doc)@),
        decreases m.count() - node, 1int, 0int,
    {
        self.fr_kids(doc, m, res, file, op, node, 0);
    }

    fn fr_kids(
        &mut self,
        doc: &mut OpenApi,
        m: &Module,
        res: &ModuleResolver,
        file: &String,
        op: OpHandle,
        node: usize,
        i: usize,
    )
        requires
            m.wf(),
            node < m.count(),
            fac_wf(old(self)@),
            op_in_bounds(old(doc)@, op),
        ensures
            fac_wf(final(self)@),
            (final(self)@, final(doc)@) == spec_fr_kids(
                (old(self)@, old(doc)@),
                *m,
                res.entries@,
                *file,
                op,
                node as int,
                i as int,
            ),
            fac_measure(final(self)@) <= fac_measure(old(self)@),
            same_shape(old(doc)@, final(doc)@),
        decreases m.count() - node, 0int, m.kids(node as int).len() - i,
    {
        let ghost st0: EngState = (self@, doc@);
        let n = m.nodes[node].children.len();
        if i >= n {
            proof {
                assert((self@, doc@) =~~= spec_fr_kids(
                    st0,
                    *m,
                    res.entries@,
                    *file,
                    op,
                    node as int,
                    i as int,
                ));
            }
            return;
        }
        let c = m.nodes[node].children[i];
        self.store_declaration_maybe(m, res, file, c);
        let mut is_resp = false;
        match &m.nodes[c].kind {
            NodeKind::CallExpr => {
                if m.nodes[c].children.len() > 0 {
                    let cc = m.nodes[c].children[0];
                    match &m.nodes[cc].kind {
                        NodeKind::Ident { sym } => {
                            if str_eq(sym, "Response") {
                                is_resp = true;
                            }
                        },
                        _ => {},
                    }
                }
            },
            _ => {},
        }
        if is_resp {
            self.add_response(doc, m, file, op, c);
        } else {
            self.find_response(doc, m, res, file, op, c);
        }
        self.fr_kids(doc, m, res, file, op, node, i + 1);
        proof {
            assert((self@, doc@) =~~= spec_fr_kids(
                st0,
                *m,
                res.entries@,
                *file,
                op,
                node as int,
                i as int,
            ));
        }
    }

    /// Elaborate a route handler onto its operation: markers from its formal
    /// parameters, responses from its body, inside a scope of its own.
    fn add_request_details(
        &mut self,
        doc: &mut OpenApi,
        m: &Module,
        res: &ModuleResolver,
        file: &String,
        op: OpHandle,
        handler: usize,
    )
        requires
            m.wf(),
            handler < m.count(),
            fac_wf(old(self)@),
            op_in_bounds(old(doc)@, op),
        ensures
            fac_wf(final(self)@),
            (final(self)@, final(doc)@) == spec_add_request_details(
                (old(self)@, old(doc)@),
                *m,
                res.entries@,
                *file,
                op,
                handler as int,
            ),
            fac_measure(final(self)@) <= fac_measure(old(self)@),
            same_shape(old(doc)@, final(doc)@),
    {
        let ghost st0: EngState = (self@, doc@);
        let limit: usize = match &m.nodes[handler].kind {
            NodeKind::ArrowExpr { n_params } => {
                if *n_params <= m.nodes[handler].children.len() {
                    *n_params
                } else {
                    m.nodes[handler].children.len()
                }
            },
            _ => 0,
        };
        self.ard_params(doc, m, file, op, handler, 0, limit);
        self.symbol_tables.add_child_scope(file);
        self.find_response(doc, m, res, file, op, handler);
        self.symbol_tables.parent_scope(file);
        proof {
            assert((self@, doc@) =~~= spec_add_request_details(
                st0,
                *m,
                res.entries@,
                *file,
                op,
                handler as int,
            ));
        }
    }

    fn ard_params(
        &mut self,
        doc: &mut OpenApi,
        m: &Module,
        file: &String,
        op: OpHandle,
        handler: usize,
        i: usize,
        limit: usize,
    )
        requires
            m.wf(),
            handler < m.count(),
            limit <= m.kids(handler as int).len(),
            fac_wf(old(self)@),
            op_in_bounds(old(doc)@, op),
        ensures
            fac_wf(final(self)@),
            (final(self)@, final(doc)@) == spec_ard_params(
                (old(self)@, old(doc)@),
                *m,
                *file,
                op,
                handler as int,
                i as int,
                limit as int,
            ),
            fac_measure(final(self)@) <= fac_measure(old(self)@),
            same_shape(old(doc)@, final(doc)@),
            final(self)@.tables == old(self)@.tables,
        decreases limit - i,
    {
        let ghost st0: EngState = (self@, doc@);
        if i >= limit {
            proof {
                assert((self@, doc@) =~~= spec_ard_params(
                    st0,
                    *m,
                    *file,
                    op,
                    handler as int,
                    i as int,
                    limit as int,
                ));
            }
            return;
        }
        let c = m.nodes[handler].children[i];
        self.add_request_params(doc, m, file, op, c);
        self.ard_params(doc, m, file, op, handler, i + 1, limit);
        proof {
            assert((self@, doc@) =~~= spec_ard_params(
                st0,
                *m,
                *file,
                op,
                handler as int,
                i as int,
                limit as int,
            ));
        }
    }

    /// Register one `Path(handler, options)` call, skipping endpoints whose
    /// options name no usable method and path.
    fn add_path(&mut self, doc: &mut OpenApi, m: &Module, res: &ModuleResolver, file: &String, node: usize)
        requires
            m.wf(),
            node < m.count(),
            fac_wf(old(self)@),
        ensures
            fac_wf(final(self)@),
            (final(self)@, final(doc)@) == spec_add_path(
                (old(self)@, old(doc)@),
                *m,
                res.entries@,
                *file,
                node as int,
            ),
            fac_measure(final(self)@) <= fac_measure(old(self)@),
    {
        let ghost st0: EngState = (self@, doc@);
        let nkids = m.nodes[node].children.len();
        if nkids >= 2 {
            let opts = get_path_options(m, m.nodes[node].children[nkids - 1]);
            match (opts.method, opts.path) {
                (Some(me), Some(pa)) => {
                    let pidx = doc.path(&pa);
                    let h = doc.add_operation(pidx, &me);
                    doc.set_tags(h, opts.tags);
                    self.add_request_details(doc, m, res, file, h, m.nodes[node].children[1]);
                    proof {
                        assert((self@, doc@) =~~= spec_add_path(
                            st0,
                            *m,
                            res.entries@,
                            *file,
                            node as int,
                        ));
                    }
                    return;
                },
                _ => {},
            }
        }
        self.diagnostics.push(Diagnostic::MalformedEndpoint { file: file.clone() });
        proof {
            assert((self@, doc@) =~~= spec_add_path(st0, *m, res.entries@, *file, node as int));
        }
    }

    /// Walk a file for `Path(...)` calls, registering declarations along the
    /// way; each endpoint is processed inside a scope of its own.
    pub fn find_paths(
        &mut self,
        doc: &mut OpenApi,
        m: &Module,
        res: &ModuleResolver,
        file: &String,
        node: usize,
    )
        requires
            m.wf(),
            node < m.count(),
            fac_wf(old(self)@),
        ensures
            fac_wf(final(self)@),
            (final(self)@, final(doc)@) == spec_find_paths(
                (old(self)@, old(doc)@),
                *m,
                res.entries@,
                *file,
                node as int,
            ),
            fac_measure(final(self)@) <= fac_measure(old(self)@),
        decreases m.count() - node, 1int, 0int,
    {
        self.store_declaration_maybe(m, res, file, node);
        self.fp_kids(doc, m, res, file, node, 0);
    }

    fn fp_kids(
        &mut self,
        doc: &mut OpenApi,
        m: &Module,
        res: &ModuleResolver,
        file: &String,
        node: usize,
        i: usize,
    )
        requires
            m.wf(),
            node < m.count(),
            fac_wf(old(self)@),
        ensures
            fac_wf(final(self)@),
            (final(self)@, final(doc)@) == spec_fp_kids(
                (old(self)@, old(doc)@),
                *m,
                res.entries@,
                *file,
                node as int,
                i as int,
            ),
            fac_measure(final(self)@) <= fac_measure(old(self)@),
        decreases m.count() - node, 0int, m.kids(node as int).len() - i,
    {
        let ghost st0: EngState = (self@, doc@);
        let n = m.nodes[node].children.len();
        if i >= n {
            proof {
                assert((self@, doc@) =~~= spec_fp_kids(
                    st0,
                    *m,
                    res.entries@,
                    *file,
                    node as int,
                    i as int,
                ));
            }
            return;
        }
        let c = m.nodes[node].children[i];
        let mut is_path = false;
        match &m.nodes[c].kind {
            NodeKind::CallExpr => {
                if m.nodes[c].children.len() > 0 {
                    let cc = m.nodes[c].children[0];
                    match &m.nodes[cc].kind {
                        NodeKind::Ident { sym } => {
                            if str_eq(sym, "Path") {
                                is_path = true;
                            }
                        },
                        _ => {},
                    }
                }
            },
            _ => {},
        }
        if is_path {
            self.symbol_tables.add_child_scope(file);
            self.add_path(doc, m, res, file, c);
            self.symbol_tables.parent_scope(file);
        } else {
            self.find_paths(doc, m, res, file, c);
        }
        self.fp_kids(doc, m, res, file, node, i + 1);
        proof {
            assert((self@, doc@) =~~= spec_fp_kids(
                st0,
                *m,
                res.entries@,
                *file,
                node as int,
                i as int,
            ));
        }
    }
}

/// The schema obligations recorded against `(file, name)`, in order.
pub open spec fn spec_matching_dts(
    ts: Seq<DeferredType>,
    file: Seq<char>,
    name: SymbolName,
) -> Seq<DeferredType>
    decreases ts.len(),
{
    if ts.len() == 0 {
        Seq::empty()
    } else {
        let head: Seq<DeferredType> = if ts[0].source_file_name@ == file && name_matches(
            ts[0].exported_name,
            name,
        ) {
            seq![ts[0]]
        } else {
            Seq::empty()
        };
        head + spec_matching_dts(ts.skip(1), file, name)
    }
}

/// The parameter obligations recorded against `(file, name)`, in order.
pub open spec fn spec_matching_dots(
    ts: Seq<DeferredOperationType>,
    file: Seq<char>,
    name: SymbolName,
) -> Seq<DeferredOperationType>
    decreases ts.len(),
{
    if ts.len() == 0 {
        Seq::empty()
    } else {
        let head: Seq<DeferredOperationType> = if ts[0].source_file_name@ == file && name_matches(
            ts[0].exported_name,
            name,
        ) {
            seq![ts[0]]
        } else {
            Seq::empty()
        };
        head + spec_matching_dots(ts.skip(1), file, name)
    }
}

/// Processing the matched parameter obligations: against a terminal type
/// declaration the handler-parameter walk runs again on that declaration;
/// against a further import the obligation hops to the next file.
pub open spec fn spec_ddt_ops(
    st: EngState,
    m: Module,
    file: String,
    rd: Option<Declaration>,
    items: Seq<DeferredOperationType>,
    i: int,
) -> EngState
    decreases items.len() - i,
        when 0 <= i
{
    if i >= items.len() {
        st
    } else {
        let ot = items[i];
        let st1 = match rd {
            Some(Declaration::Type { node }) => if node < m.count() && op_in_bounds(
                st.1,
                ot.operation,
            ) {
                spec_add_request_params(st, m, file, ot.operation, node as int)
            } else {
                st
            },
            Some(Declaration::Import { name, source_file_name }) => (
                spec_defer_operation_type(
                    st.0,
                    DeferredOperationType {
                        source_file_name,
                        operation: ot.operation,
                        exported_name: name,
                    },
                ),
                st.1,
            ),
            _ => st,
        };
        spec_ddt_ops(st1, m, file, rd, items, i + 1)
    }
}

/// Processing the matched schema obligations: against a terminal type
/// declaration the schema is materialized under the obligation's name and
/// namespace; against a further import or re-export the obligation hops; a
/// dead end is reported as a missing declaration.
pub open spec fn spec_ddt_types(
    st: EngState,
    m: Module,
    file: String,
    rd: Option<Declaration>,
    items: Seq<DeferredType>,
    i: int,
) -> EngState
    decreases items.len() - i,
        when 0 <= i
{
    if i >= items.len() {
        st
    } else {
        let dt = items[i];
        let st1 = match rd {
            Some(Declaration::Type { node }) => if node < m.count() {
                spec_map_schema(
                    st,
                    m,
                    file,
                    node as int,
                    dt.schema_name,
                    dt.namespace,
                    REF_DEPTH_LIMIT as nat,
                )
            } else {
                st
            },
            Some(Declaration::Import { name, source_file_name }) => (
                spec_defer_type(
                    st.0,
                    DeferredType {
                        source_file_name,
                        schema_name: dt.schema_name,
                        exported_name: name,
                        namespace: dt.namespace,
                    },
                ),
                st.1,
            ),
            Some(Declaration::Export { name, source_file_name }) => (
                spec_defer_type(
                    st.0,
                    DeferredType {
                        source_file_name,
                        schema_name: dt.schema_name,
                        exported_name: name,
                        namespace: dt.namespace,
                    },
                ),
                st.1,
            ),
            _ => (
                fac_diag(st.0, Diagnostic::MissingDeclaration { name: dt.schema_name }),
                st.1,
            ),
        };
        spec_ddt_types(st1, m, file, rd, items, i + 1)
    }
}

/// Processing everything waiting on the export `name` of `file`: the name is
/// resolved once through the file's table, then each matched parameter
/// obligation and each matched schema obligation is acted on.
pub open spec fn spec_ddt_maybe(st: EngState, m: Module, file: String, name: SymbolName) -> EngState {
    let rd = root_decl(st.0.tables, file@, name);
    let ops = spec_matching_dots(st.0.operation_types, file@, name);
    let dts = spec_matching_dts(st.0.types, file@, name);
    let st1 = spec_ddt_ops(st, m, file, rd, ops, 0);
    spec_ddt_types(st1, m, file, rd, dts, 0)
}

/// Walking one top-level item of a deferred file: the item's declarations are
/// registered, and each export form it makes is matched against the pending
/// obligations — the default export, an exported class, interface or type
/// alias, or each name of an export list.
pub open spec fn spec_dds(
    st: EngState,
    m: Module,
    res: Seq<ResolutionEntry>,
    file: String,
    node: int,
) -> EngState
    decreases m.count() - node, 1int, 0int,
        when m.wf() && 0 <= node < m.count()
{
    let st1 = (spec_store_declaration(st.0, m, res, file, node), st.1);
    match m.node(node).kind {
        NodeKind::ExportDefaultExpr => spec_ddt_maybe(st1, m, file, SymbolName::Default),
        NodeKind::ExportDecl => if m.kids(node).len() > 0 {
            match m.node(m.kids(node)[0] as int).kind {
                NodeKind::ClassDecl { name } => spec_ddt_maybe(
                    st1,
                    m,
                    file,
                    SymbolName::Named(name),
                ),
                NodeKind::InterfaceDecl { name } => spec_ddt_maybe(
                    st1,
                    m,
                    file,
                    SymbolName::Named(name),
                ),
                NodeKind::TypeAliasDecl { name } => spec_ddt_maybe(
                    st1,
                    m,
                    file,
                    SymbolName::Named(name),
                ),
                _ => st1,
            }
        } else {
            st1
        },
        NodeKind::NamedExport { .. } => spec_dds_specs(st1, m, file, node, 0),
        _ => st1,
    }
}

pub open spec fn spec_dds_specs(st: EngState, m: Module, file: String, node: int, i: int) -> EngState
    decreases m.count() - node, 0int, m.kids(node).len() - i,
        when m.wf() && 0 <= node < m.count() && 0 <= i
{
    if i >= m.kids(node).len() {
        st
    } else {
        let st1 = match m.node(m.kids(node)[i] as int).kind {
            NodeKind::ExportSpecifier { orig, exported } => spec_ddt_maybe(
                st,
                m,
                file,
                SymbolName::Named(
                    match exported {
                        Some(x) => x,
                        None => orig,
                    },
                ),
            ),
            _ => st,
        };
        spec_dds_specs(st1, m, file, node, i + 1)
    }
}

/// Processing one file off the deferred list: a file the cache cannot supply
/// is reported and treated as empty; otherwise each top-level item of its
/// tree is walked for exports matching pending obligations.
pub open spec fn spec_process_module(
    st: EngState,
    cs: Seq<CachedModule>,
    res: Seq<ResolutionEntry>,
    file: String,
) -> EngState {
    match spec_parse(cs, file@) {
        None => (fac_diag(st.0, Diagnostic::ParseError { file }), st.1),
        Some(mm) => if mm.count() > 0 {
            spec_pm_kids(st, mm, res, file, 0)
        } else {
            st
        },
    }
}

pub open spec fn spec_pm_kids(
    st: EngState,
    mm: Module,
    res: Seq<ResolutionEntry>,
    file: String,
    i: int,
) -> EngState
    decreases mm.kids(0).len() - i,
        when mm.wf() && mm.count() > 0 && 0 <= i
{
    if i >= mm.kids(0).len() {
        st
    } else {
        spec_pm_kids(spec_dds(st, mm, res, file, mm.kids(0)[i] as int), mm, res, file, i + 1)
    }
}

/// Draining the deferred list, first in first out: take the next waiting
/// file, process it, repeat. `fuel` bounds the steps; the work measure shows
/// the list always empties within `fac_measure` steps.
pub open spec fn spec_drain(
    st: EngState,
    cs: Seq<CachedModule>,
    res: Seq<ResolutionEntry>,
    fuel: nat,
) -> EngState
    decreases fuel,
{
    if fuel == 0 {
        st
    } else if st.0.next < st.0.modules.len() {
        let file = st.0.modules[st.0.next];
        let st1 = (FacView { next: st.0.next + 1, ..st.0 }, st.1);
        spec_drain(spec_process_module(st1, cs, res, file), cs, res, (fuel - 1) as nat)
    } else {
        st
    }
}

/// One full run over an entry file: walk it for endpoints, then drain the
/// deferred work.
pub open spec fn spec_append_schema(
    st: EngState,
    cs: Seq<CachedModule>,
    res: Seq<ResolutionEntry>,
    file: String,
) -> EngState {
    let st1 = match spec_parse(cs, file@) {
        None => (fac_diag(st.0, Diagnostic::ParseError { file }), st.1),
        Some(mm) => if mm.count() > 0 {
            spec_find_paths(st, mm, res, file, 0)
        } else {
            st
        },
    };
    spec_drain(st1, cs, res, fac_measure(st1.0) as nat)
}

/// The final sweep: every schema obligation whose schema never materialized
/// is reported as a missing declaration.
pub open spec fn spec_sweep(f: FacView, i: int) -> FacView
    decreases f.types.len() - i,
        when 0 <= i
{
    if i >= f.types.len() {
        f
    } else {
        let dt = f.types[i];
        let f1 = if !spec_defined_has(f.defined, dt.namespace, dt.schema_name@) {
            fac_diag(f, Diagnostic::MissingDeclaration { name: dt.schema_name })
        } else {
            f
        };
        spec_sweep(f1, i + 1)
    }
}

/// A fresh engine and an empty document.
pub open spec fn spec_initial_state() -> EngState {
    (
        FacView {
            modules: Seq::empty(),
            next: 0,
            types: Seq::empty(),
            operation_types: Seq::empty(),
            tables: Seq::empty(),
            defined: Seq::empty(),
            diags: Seq::empty(),
            budget: WORK_BUDGET as nat,
        },
        OpenApiView { paths: Seq::empty(), components: Seq::empty() },
    )
}

/// The complete run: what `generate` computes from the parsed trees, the
/// resolution table and the entry path — a mathematical function of its
/// inputs, which is why running it twice on the same input gives the same
/// document, diagnostics included.
pub open spec fn spec_generate(
    cs: Seq<CachedModule>,
    res: Seq<ResolutionEntry>,
    entry: String,
) -> EngState {
    let st1 = spec_append_schema(spec_initial_state(), cs, res, entry);
    (spec_sweep(st1.0, 0), st1.1)
}

impl OpenApiFactory {
    /// Process everything waiting on the export `name` of `file`.
    fn define_deferred_type_maybe(
        &mut self,
        doc: &mut OpenApi,
        m: &Module,
        file: &String,
        name: &SymbolName,
    )
        requires
            m.wf(),
            fac_wf(old(self)@),
        ensures
            fac_wf(final(self)@),
            (final(self)@, final(doc)@) == spec_ddt_maybe(
                (old(self)@, old(doc)@),
                *m,
                *file,
                *name,
            ),
            fac_measure(final(self)@) <= fac_measure(old(self)@),
    {
        let ghost st0: EngState = (self@, doc@);
        let rd = self.symbol_tables.get_root_declaration(file, name);
        let mut ops: Vec<DeferredOperationType> = Vec::new();
        let mut j: usize = 0;
        proof {
            assert(self@.operation_types.skip(0) =~= self@.operation_types);
        }
        while j < self.deferred_schemas.operation_types.len()
            invariant
                j <= self@.operation_types.len(),
                spec_matching_dots(self@.operation_types, file@, *name) == ops@
                    + spec_matching_dots(self@.operation_types.skip(j as int), file@, *name),
            decreases self@.operation_types.len() - j,
        {
            let ot = &self.deferred_schemas.operation_types[j];
            proof {
                assert(self@.operation_types.skip(j as int)[0] == self@.operation_types[j as int]);
                assert(self@.operation_types.skip(j as int).skip(1) =~= self@.operation_types.skip(
                    j + 1,
                ));
            }
            if ot.source_file_name == *file && ot.exported_name.matches(name) {
                ops.push(ot.dup());
            }
            j = j + 1;
            proof {
                assert(spec_matching_dots(self@.operation_types, file@, *name) == ops@
                    + spec_matching_dots(self@.operation_types.skip(j as int), file@, *name));
            }
        }
        proof {
            assert(self@.operation_types.skip(
                self@.operation_types.len() as int,
            ) =~= Seq::<DeferredOperationType>::empty());
            assert(ops@ =~= spec_matching_dots(self@.operation_types, file@, *name));
        }
        let mut dts: Vec<DeferredType> = Vec::new();
        let mut j2: usize = 0;
        proof {
            assert(self@.types.skip(0) =~= self@.types);
        }
        while j2 < self.deferred_schemas.types.len()
            invariant
                j2 <= self@.types.len(),
                spec_matching_dts(self@.types, file@, *name) == dts@ + spec_matching_dts(
                    self@.types.skip(j2 as int),
                    file@,
                    *name,
                ),
            decreases self@.types.len() - j2,
        {
            let dt = &self.deferred_schemas.types[j2];
            proof {
                assert(self@.types.skip(j2 as int)[0] == self@.types[j2 as int]);
                assert(self@.types.skip(j2 as int).skip(1) =~= self@.types.skip(j2 + 1));
            }
            if dt.source_file_name == *file && dt.exported_name.matches(name) {
                dts.push(dt.dup());
            }
            j2 = j2 + 1;
            proof {
                assert(spec_matching_dts(self@.types, file@, *name) == dts@ + spec_matching_dts(
                    self@.types.skip(j2 as int),
                    file@,
                    *name,
                ));
            }
        }
        proof {
            assert(self@.types.skip(self@.types.len() as int) =~= Seq::<DeferredType>::empty());
            assert(dts@ =~= spec_matching_dts(self@.types, file@, *name));
        }
        self.ddt_ops(doc, m, file, &rd, &ops, 0);
        self.ddt_types(doc, m, file, &rd, &dts, 0);
        proof {
            assert((self@, doc@) =~~= spec_ddt_maybe(st0, *m, *file, *name));
        }
    }

    fn ddt_ops(
        &mut self,
        doc: &mut OpenApi,
        m: &Module,
        file: &String,
        rd: &Option<Declaration>,
        items: &Vec<DeferredOperationType>,
        i: usize,
    )
        requires
            m.wf(),
            fac_wf(old(self)@),
        ensures
            fac_wf(final(self)@),
            (final(self)@, final(doc)@) == spec_ddt_ops(
                (old(self)@, old(doc)@),
                *m,
                *file,
                *rd,
                items@,
                i as int,
            ),
            fac_measure(final(self)@) <= fac_measure(old(self)@),
        decreases items@.len() - i,
    {
        let ghost st0: EngState = (self@, doc@);
        if i >= items.len() {
            proof {
                assert((self@, doc@) =~~= spec_ddt_ops(st0, *m, *file, *rd, items@, i as int));
            }
            return;
        }
        let ot = &items[i];
        match rd {
            Some(Declaration::Type { node }) => {
                let node = *node;
                let h = ot.operation;
                let mut ok = node < m.len();
                if ok {
                    if h.path_idx < doc.paths.len() {
                        let p = &doc.paths[h.path_idx];
                        if h.op_idx >= p.operations.len() {
                            ok = false;
                        }
                    } else {
                        ok = false;
                    }
                }
                if ok {
                    self.add_request_params(doc, m, file, h, node);
                }
            },
            Some(Declaration::Import { name, source_file_name }) => {
                self.defer_operation_type(
                    DeferredOperationType {
                        source_file_name: source_file_name.clone(),
                        operation: ot.operation,
                        exported_name: name.dup(),
                    },
                );
            },
            _ => {},
        }
        self.ddt_ops(doc, m, file, rd, items, i + 1);
        proof {
            assert((self@, doc@) =~~= spec_ddt_ops(st0, *m, *file, *rd, items@, i as int));
        }
    }

    fn ddt_types(
        &mut self,
        doc: &mut OpenApi,
        m: &Module,
        file: &String,
        rd: &Option<Declaration>,
        items: &Vec<DeferredType>,
        i: usize,
    )
        requires
            m.wf(),
            fac_wf(old(self)@),
        ensures
            fac_wf(final(self)@),
            (final(self)@, final(doc)@) == spec_ddt_types(
                (old(self)@, old(doc)@),
                *m,
                *file,
                *rd,
                items@,
                i as int,
            ),
            fac_measure(final(self)@) <= fac_measure(old(self)@),
        decreases items@.len() - i,
    {
        let ghost st0: EngState = (self@, doc@);
        if i >= items.len() {
            proof {
                assert((self@, doc@) =~~= spec_ddt_types(st0, *m, *file, *rd, items@, i as int));
            }
            return;
        }
        let dt = &items[i];
        match rd {
            Some(Declaration::Type { node }) => {
                let node = *node;
                if node < m.len() {
                    let sn = dt.schema_name.clone();
                    let ns = match &dt.namespace {
                        Some(x) => Some(x.clone()),
                        None => None,
                    };
                    self.materialize_and_place(doc, m, file, node, &sn, &ns, REF_DEPTH_LIMIT);
                }
            },
            Some(Declaration::Import { name, source_file_name }) => {
                self.defer_type(
                    DeferredType {
                        source_file_name: source_file_name.clone(),
                        schema_name: dt.schema_name.clone(),
                        exported_name: name.dup(),
                        namespace: match &dt.namespace {
                            Some(x) => Some(x.clone()),
                            None => None,
                        },
                    },
                );
            },
            Some(Declaration::Export { name, source_file_name }) => {
                self.defer_type(
                    DeferredType {
                        source_file_name: source_file_name.clone(),
                        schema_name: dt.schema_name.clone(),
                        exported_name: name.dup(),
                        namespace: match &dt.namespace {
                            Some(x) => Some(x.clone()),
                            None => None,
                        },
                    },
                );
            },
            _ => {
                self.diagnostics.push(
                    Diagnostic::MissingDeclaration { name: dt.schema_name.clone() },
                );
            },
        }
        self.ddt_types(doc, m, file, rd, items, i + 1);
        proof {
            assert((self@, doc@) =~~= spec_ddt_types(st0, *m, *file, *rd, items@, i as int));
        }
    }

    /// Walk one top-level item of a deferred file for exports matching
    /// pending obligations.
    pub fn define_deferred_schemas(
        &mut self,
        doc: &mut OpenApi,
        m: &Module,
        res: &ModuleResolver,
        file: &String,
        node: usize,
    )
        requires
            m.wf(),
            node < m.count(),
            fac_wf(old(self)@),
        ensures
            fac_wf(final(self)@),
            (final(self)@, final(doc)@) == spec_dds(
                (old(self)@, old(doc)@),
                *m,
                res.entries@,
                *file,
                node as int,
            ),
            fac_measure(final(self)@) <= fac_measure(old(self)@),
        decreases m.count() - node, 1int, 0int,
    {
        let ghost st0: EngState = (self@, doc@);
        self.store_declaration_maybe(m, res, file, node);
        match &m.nodes[node].kind {
            NodeKind::ExportDefaultExpr => {
                self.define_deferred_type_maybe(doc, m, file, &SymbolName::Default);
            },
            NodeKind::ExportDecl => {
                if m.nodes[node].children.len() > 0 {
                    let c = m.nodes[node].children[0];
                    let nm: Option<String> = match &m.nodes[c].kind {
                        NodeKind::ClassDecl { name } => Some(name.clone()),
                        NodeKind::InterfaceDecl { name } => Some(name.clone()),
                        NodeKind::TypeAliasDecl { name } => Some(name.clone()),
                        _ => None,
                    };
                    match nm {
                        Some(n) => {
                            self.define_deferred_type_maybe(
                                doc,
                                m,
                                file,
                                &SymbolName::Named(n),
                            );
                        },
                        None => {},
                    }
                }
            },
            NodeKind::NamedExport { .. } => {
                self.dds_specs(doc, m, file, node, 0);
            },
            _ => {},
        }
        proof {
            assert((self@, doc@) =~~= spec_dds(st0, *m, res.entries@, *file, node as int));
        }
    }

    fn dds_specs(&mut self, doc: &mut OpenApi, m: &Module, file: &String, node: usize, i: usize)
        requires
            m.wf(),
            node < m.count(),
            fac_wf(old(self)@),
        ensures
            fac_wf(final(self)@),
            (final(self)@, final(doc)@) == spec_dds_specs(
                (old(self)@, old(doc)@),
                *m,
                *file,
                node as int,
                i as int,
            ),
            fac_measure(final(self)@) <= fac_measure(old(self)@),
        decreases m.count() - node, 0int, m.kids(node as int).len() - i,
    {
        let ghost st0: EngState = (self@, doc@);
        let n = m.nodes[node].children.len();
        if i >= n {
            proof {
                assert((self@, doc@) =~~= spec_dds_specs(st0, *m, *file, node as int, i as int));
            }
            return;
        }
        let c = m.nodes[node].children[i];
        match &m.nodes[c].kind {
            NodeKind::ExportSpecifier { orig, exported } => {
                let nm = match exported {
                    Some(x) => x.clone(),
                    None => orig.clone(),
                };
                self.define_deferred_type_maybe(doc, m, file, &SymbolName::Named(nm));
            },
            _ => {},
        }
        self.dds_specs(doc, m, file, node, i + 1);
        proof {
            assert((self@, doc@) =~~= spec_dds_specs(st0, *m, *file, node as int, i as int));
        }
    }

    /// Process one file off the deferred list.
    fn process_module(
        &mut self,
        doc: &mut OpenApi,
        cache: &ModuleCache,
        res: &ModuleResolver,
        file: &String,
    )
        requires
            cache_wf(*cache),
            fac_wf(old(self)@),
        ensures
            fac_wf(final(self)@),
            (final(self)@, final(doc)@) == spec_process_module(
                (old(self)@, old(doc)@),
                cache.entries@,
                res.entries@,
                *file,
            ),
            fac_measure(final(self)@) <= fac_measure(old(self)@),
    {
        let ghost st0: EngState = (self@, doc@);
        match cache.parse(file) {
            None => {
                self.diagnostics.push(Diagnostic::ParseError { file: file.clone() });
                proof {
                    assert((self@, doc@) =~~= spec_process_module(
                        st0,
                        cache.entries@,
                        res.entries@,
                        *file,
                    ));
                }
            },
            Some(mm) => {
                if mm.len() > 0 {
                    self.pm_kids(doc, mm, res, file, 0);
                }
                proof {
                    assert((self@, doc@) =~~= spec_process_module(
                        st0,
                        cache.entries@,
                        res.entries@,
                        *file,
                    ));
                }
            },
        }
    }

    fn pm_kids(&mut self, doc: &mut OpenApi, mm: &Module, res: &ModuleResolver, file: &String, i: usize)
        requires
            mm.wf(),
            mm.count() > 0,
            fac_wf(old(self)@),
        ensures
            fac_wf(final(self)@),
            (final(self)@, final(doc)@) == spec_pm_kids(
                (old(self)@, old(doc)@),
                *mm,
                res.entries@,
                *file,
                i as int,
            ),
            fac_measure(final(self)@) <= fac_measure(old(self)@),
        decreases mm.kids(0).len() - i,
    {
        let ghost st0: EngState = (self@, doc@);
        let n = mm.nodes[0].children.len();
        if i >= n {
            proof {
                assert((self@, doc@) =~~= spec_pm_kids(st0, *mm, res.entries@, *file, i as int));
            }
            return;
        }
        let c = mm.nodes[0].children[i];
        self.define_deferred_schemas(doc, mm, res, file, c);
        self.pm_kids(doc, mm, res, file, i + 1);
        proof {
            assert((self@, doc@) =~~= spec_pm_kids(st0, *mm, res.entries@, *file, i as int));
        }
    }

    /// Drain the deferred list, first in first out.
    fn drain(&mut self, doc: &mut OpenApi, cache: &ModuleCache, res: &ModuleResolver)
        requires
            cache_wf(*cache),
            fac_wf(old(self)@),
        ensures
            fac_wf(final(self)@),
            (final(self)@, final(doc)@) == spec_drain(
                (old(self)@, old(doc)@),
                cache.entries@,
                res.entries@,
                fac_measure(old(self)@) as nat,
            ),
            final(self)@.next >= final(self)@.modules.len(),
    {
        let ghost st_init: EngState = (self@, doc@);
        let ghost fuel0: nat = fac_measure(self@) as nat;
        let ghost mut fuel: nat = fuel0;
        loop
            invariant
                cache_wf(*cache),
                fac_wf(self@),
                fuel >= fac_measure(self@),
                spec_drain(st_init, cache.entries@, res.entries@, fuel0) == spec_drain(
                    (self@, doc@),
                    cache.entries@,
                    res.entries@,
                    fuel,
                ),
            ensures
                self@.next >= self@.modules.len(),
                spec_drain(st_init, cache.entries@, res.entries@, fuel0) == (self@, doc@),
            decreases fac_measure(self@),
        {
            let ghost st_cur: EngState = (self@, doc@);
            match self.deferred_schemas.next_module() {
                Some(file) => {
                    proof {
                        assert(fuel > 0);
                        assert((self@, doc@) =~~= (
                            FacView { next: st_cur.0.next + 1, ..st_cur.0 },
                            st_cur.1,
                        ));
                    }
                    self.process_module(doc, cache, res, &file);
                    proof {
                        assert(spec_drain(st_cur, cache.entries@, res.entries@, fuel)
                            == spec_drain(
                            (self@, doc@),
                            cache.entries@,
                            res.entries@,
                            (fuel - 1) as nat,
                        ));
                        fuel = (fuel - 1) as nat;
                    }
                },
                None => {
                    proof {
                        assert(spec_drain(
                            (self@, doc@),
                            cache.entries@,
                            res.entries@,
                            fuel,
                        ) =~~= (self@, doc@));
                    }
                    break;
                },
            }
        }
    }

    /// One full run over an entry file: walk it for endpoints, then drain
    /// the deferred work the walk created, parsing further files on demand
    /// from the cache.
    pub fn append_schema(
        &mut self,
        open_api: &mut OpenApi,
        file_path: &String,
        module_cache: &ModuleCache,
        res: &ModuleResolver,
    )
        requires
            cache_wf(*module_cache),
            fac_wf(old(self)@),
        ensures
            fac_wf(final(self)@),
            (final(self)@, final(open_api)@) == spec_append_schema(
                (old(self)@, old(open_api)@),
                module_cache.entries@,
                res.entries@,
                *file_path,
            ),
            final(self)@.next >= final(self)@.modules.len(),
    {
        match module_cache.parse(file_path) {
            None => {
                self.diagnostics.push(Diagnostic::ParseError { file: file_path.clone() });
            },
            Some(mm) => {
                if mm.len() > 0 {
                    self.find_paths(open_api, mm, res, file_path, 0);
                }
            },
        }
        self.drain(open_api, module_cache, res);
    }

    /// Report every schema obligation whose schema never materialized.
    pub fn sweep_unresolved(&mut self)
        ensures
            final(self)@ == spec_sweep(old(self)@, 0),
    {
        let ghost f0 = self@;
        let n = self.deferred_schemas.types.len();
        let mut i: usize = 0;
        while i < n
            invariant
                n == self@.types.len(),
                i <= n,
                spec_sweep(f0, 0) == spec_sweep(self@, i as int),
            decreases n - i,
        {
            let ghost f_cur = self@;
            let dt_ns = match &self.deferred_schemas.types[i].namespace {
                Some(x) => Some(x.clone()),
                None => None,
            };
            let dt_name = self.deferred_schemas.types[i].schema_name.clone();
            if !self.defined_has(&dt_ns, &dt_name) {
                self.diagnostics.push(Diagnostic::MissingDeclaration { name: dt_name });
            }
            proof {
                assert(self@ =~= (if !spec_defined_has(
                    f_cur.defined,
                    f_cur.types[i as int].namespace,
                    f_cur.types[i as int].schema_name@,
                ) {
                    fac_diag(
                        f_cur,
                        Diagnostic::MissingDeclaration { name: f_cur.types[i as int].schema_name },
                    )
                } else {
                    f_cur
                }));
            }
            i = i + 1;
        }
    }
}

/// Extract the OpenAPI description of the service rooted at `entry`: walk the
/// entry file for `Path(...)` endpoints, resolve every referenced user type
/// across the supplied parsed trees, materialize their schemas, and report
/// the unresolved rest. Returns the document and the engine, whose
/// `diagnostics` list what degraded.
pub fn generate(entry: &String, cache: &ModuleCache, res: &ModuleResolver) -> (r: (
    OpenApi,
    OpenApiFactory,
))
    requires
        cache_wf(*cache),
    ensures
        (r.1@, r.0@) == spec_generate(cache.entries@, res.entries@, *entry),
{
    let mut fac = OpenApiFactory::new();
    let mut doc = OpenApi::new();
    proof {
        assert((fac@, doc@) =~~= spec_initial_state());
    }
    fac.append_schema(&mut doc, entry, cache, res);
    fac.sweep_unresolved();
    (doc, fac)
}

/// Determinism of the whole run (and with it idempotence): the generated
/// document and diagnostics are a function of the parsed trees, the
/// resolution table and the entry path alone, so two runs on the same input
/// agree byte for byte once serialized stably.
pub proof fn lemma_generate_deterministic(
    cs: Seq<CachedModule>,
    res: Seq<ResolutionEntry>,
    entry: String,
    r1: EngState,
    r2: EngState,
)
    requires
        r1 == spec_generate(cs, res, entry),
        r2 == spec_generate(cs, res, entry),
    ensures
        r1 == r2,
{
}

/// One sequence extends another: same front, possibly more behind.
pub open spec fn seq_ext_of<T>(a: Seq<T>, b: Seq<T>) -> bool {
    a.len() <= b.len() && forall|i: int| 0 <= i < a.len() ==> b[i] == a[i]
}

/// A diagnostic excusing the absence of a schema named `name`: the
/// declaration was missing, or the work allowance ran out on it.
pub open spec fn diag_excuses(diags: Seq<Diagnostic>, name: Seq<char>) -> bool {
    exists|i: int|
        0 <= i < diags.len() && match #[trigger] diags[i] {
            Diagnostic::MissingDeclaration { name: n } => n@ == name,
            Diagnostic::WorkLimitExceeded { name: Some(n) } => n@ == name,
            _ => false,
        }
}

/// A pending schema obligation that will define `name` under `ns` when its
/// file is processed.
pub open spec fn obligation_for(ts: Seq<DeferredType>, ns: Option<String>, name: Seq<char>) -> bool {
    exists|i: int|
        0 <= i < ts.len() && (#[trigger] ts[i]).schema_name@ == name && opt_str_matches(
            ts[i].namespace,
            ns,
        )
}

/// Every schema request is accounted for: the schema stands in the document,
/// or an obligation will deliver it, or a diagnostic excuses it.
pub open spec fn schema_request_covered(f: FacView, ns: Option<String>, name: Seq<char>) -> bool {
    ||| spec_defined_has(f.defined, ns, name)
    ||| obligation_for(f.types, ns, name)
    ||| diag_excuses(f.diags, name)
}

proof fn lemma_defined_mono(a: Seq<DefinedSchema>, b: Seq<DefinedSchema>, ns: Option<String>, n: Seq<char>)
    requires
        seq_ext_of(a, b),
        spec_defined_has(a, ns, n),
    ensures
        spec_defined_has(b, ns, n),
{
    let i = choose|i: int|
        0 <= i < a.len() && opt_str_matches(#[trigger] a[i].namespace, ns) && a[i].name@ == n;
    assert(opt_str_matches(b[i].namespace, ns) && b[i].name@ == n);
}

proof fn lemma_obligation_mono(a: Seq<DeferredType>, b: Seq<DeferredType>, ns: Option<String>, n: Seq<char>)
    requires
        seq_ext_of(a, b),
        obligation_for(a, ns, n),
    ensures
        obligation_for(b, ns, n),
{
    let i = choose|i: int|
        0 <= i < a.len() && (#[trigger] a[i]).schema_name@ == n && opt_str_matches(
            a[i].namespace,
            ns,
        );
    assert((b[i]).schema_name@ == n && opt_str_matches(b[i].namespace, ns));
}

proof fn lemma_diag_mono(a: Seq<Diagnostic>, b: Seq<Diagnostic>, n: Seq<char>)
    requires
        seq_ext_of(a, b),
        diag_excuses(a, n),
    ensures
        diag_excuses(b, n),
{
    let i = choose|i: int|
        0 <= i < a.len() && match #[trigger] a[i] {
            Diagnostic::MissingDeclaration { name: nm } => nm@ == n,
            Diagnostic::WorkLimitExceeded { name: Some(nm) } => nm@ == n,
            _ => false,
        };
    assert(match b[i] {
        Diagnostic::MissingDeclaration { name: nm } => nm@ == n,
        Diagnostic::WorkLimitExceeded { name: Some(nm) } => nm@ == n,
        _ => false,
    });
}

proof fn lemma_covered_mono(f1: FacView, f2: FacView, ns: Option<String>, n: Seq<char>)
    requires
        seq_ext_of(f1.defined, f2.defined),
        seq_ext_of(f1.types, f2.types),
        seq_ext_of(f1.diags, f2.diags),
        schema_request_covered(f1, ns, n),
    ensures
        schema_request_covered(f2, ns, n),
{
    if spec_defined_has(f1.defined, ns, n) {
        lemma_defined_mono(f1.defined, f2.defined, ns, n);
    } else if obligation_for(f1.types, ns, n) {
        lemma_obligation_mono(f1.types, f2.types, ns, n);
    } else {
        lemma_diag_mono(f1.diags, f2.diags, n);
    }
}

proof fn lemma_defer_type_ext(f: FacView, t: DeferredType)
    ensures
        seq_ext_of(f.defined, spec_defer_type(f, t).defined),
        seq_ext_of(f.types, spec_defer_type(f, t).types),
        seq_ext_of(f.diags, spec_defer_type(f, t).diags),
{
}

/// The nested-reference walk only adds: what is defined stays defined, what
/// is owed stays owed, what was reported stays reported.
proof fn lemma_map_schema_ext(
    st: EngState,
    m: Module,
    file: String,
    node: int,
    sn: String,
    ns: Option<String>,
    depth: nat,
)
    ensures
        seq_ext_of(st.0.defined, spec_map_schema(st, m, file, node, sn, ns, depth).0.defined),
        seq_ext_of(st.0.types, spec_map_schema(st, m, file, node, sn, ns, depth).0.types),
        seq_ext_of(st.0.diags, spec_map_schema(st, m, file, node, sn, ns, depth).0.diags),
    decreases depth, 0int, 0int,
{
    if !spec_defined_has(st.0.defined, ns, sn@) && st.0.budget != 0 && depth != 0 {
        let f1 = FacView {
            budget: (st.0.budget - 1) as nat,
            defined: st.0.defined.push(DefinedSchema { namespace: ns, name: sn }),
            ..st.0
        };
        let refs = spec_refs(m, st.0.tables, file@, node);
        lemma_define_refs_ext(
            (
                f1,
                spec_map_schema(st, m, file, node, sn, ns, depth).1,
            ),
            m,
            file,
            ns,
            refs,
            0,
            (depth - 1) as nat,
        );
        let s = spec_materialize(m, st.0.tables, file@, ns, node);
        let d = st.1;
        let d1 = match ns {
            Some(nsname) => {
                let (da, idx) = spec_component_index(d, nsname);
                OpenApiView {
                    paths: da.paths,
                    components: da.components.update(
                        idx,
                        crate::schema::ComponentView {
                            name: da.components[idx].name,
                            schema: SchemaView {
                                data_type: Some(DataType::Object),
                                ..spec_set_property(da.components[idx].schema, sn, s)
                            },
                        },
                    ),
                }
            },
            None => {
                let (da, idx) = spec_component_index(d, sn);
                OpenApiView {
                    paths: da.paths,
                    components: da.components.update(
                        idx,
                        crate::schema::ComponentView { name: da.components[idx].name, schema: s },
                    ),
                }
            },
        };
        lemma_define_refs_ext((f1, d1), m, file, ns, refs, 0, (depth - 1) as nat);
    }
}

proof fn lemma_drs_ext(
    st: EngState,
    m: Module,
    file: String,
    tn: String,
    sn: String,
    ns: Option<String>,
    depth: nat,
)
    ensures
        seq_ext_of(st.0.defined, spec_drs(st, m, file, tn, sn, ns, depth).0.defined),
        seq_ext_of(st.0.types, spec_drs(st, m, file, tn, sn, ns, depth).0.types),
        seq_ext_of(st.0.diags, spec_drs(st, m, file, tn, sn, ns, depth).0.diags),
    decreases depth, 1int, 0int,
{
    match root_decl(st.0.tables, file@, SymbolName::Named(tn)) {
        Some(Declaration::Type { node }) => {
            if node < m.count() {
                lemma_map_schema_ext(st, m, file, node as int, sn, ns, depth);
            }
        },
        Some(Declaration::Import { name, source_file_name }) => {
            lemma_defer_type_ext(
                st.0,
                DeferredType { source_file_name, schema_name: sn, exported_name: name, namespace: ns },
            );
        },
        Some(Declaration::Export { name, source_file_name }) => {
            lemma_defer_type_ext(
                st.0,
                DeferredType { source_file_name, schema_name: sn, exported_name: name, namespace: ns },
            );
        },
        _ => {},
    }
}

proof fn lemma_define_refs_ext(
    st: EngState,
    m: Module,
    file: String,
    ns: Option<String>,
    refs: Seq<String>,
    i: int,
    depth: nat,
)
    ensures
        seq_ext_of(st.0.defined, spec_define_refs(st, m, file, ns, refs, i, depth).0.defined),
        seq_ext_of(st.0.types, spec_define_refs(st, m, file, ns, refs, i, depth).0.types),
        seq_ext_of(st.0.diags, spec_define_refs(st, m, file, ns, refs, i, depth).0.diags),
    decreases depth, 2int, refs.len() - i,
{
    if 0 <= i < refs.len() {
        lemma_drs_ext(st, m, file, refs[i], refs[i], ns, depth);
        lemma_define_refs_ext(
            spec_drs(st, m, file, refs[i], refs[i], ns, depth),
            m,
            file,
            ns,
            refs,
            i + 1,
            depth,
        );
    }
}

/// Closure of schema requests: after a request for `schema_name` under `ns`
/// (a marker payload, a response type, or a nested reference), the engine
/// state accounts for it — the schema stands in `components`, or a deferred
/// obligation carrying the same name and namespace will deliver it, or a
/// diagnostic (missing declaration, exhausted allowance) excuses it. A
/// reference in the emitted document can only dangle alongside such a
/// diagnostic.
pub proof fn lemma_drs_covers(
    st: EngState,
    m: Module,
    file: String,
    tn: String,
    sn: String,
    ns: Option<String>,
    depth: nat,
)
    requires
        tn@ == sn@,
        root_decl(st.0.tables, file@, SymbolName::Named(tn)) matches Some(
            Declaration::Type { node },
        ) ==> node < m.count(),
    ensures
        schema_request_covered(spec_drs(st, m, file, tn, sn, ns, depth).0, ns, sn@),
{
    let r = spec_drs(st, m, file, tn, sn, ns, depth);
    match root_decl(st.0.tables, file@, SymbolName::Named(tn)) {
        Some(Declaration::Type { node }) => {
            lemma_map_schema_covers(st, m, file, node as int, sn, ns, depth);
        },
        Some(Declaration::Import { name, source_file_name }) => {
            let t = DeferredType {
                source_file_name,
                schema_name: sn,
                exported_name: name,
                namespace: ns,
            };
            lemma_defer_covers(st.0, t, ns);
        },
        Some(Declaration::Export { name, source_file_name }) => {
            let t = DeferredType {
                source_file_name,
                schema_name: sn,
                exported_name: name,
                namespace: ns,
            };
            lemma_defer_covers(st.0, t, ns);
        },
        _ => {
            assert(match r.0.diags[r.0.diags.len() - 1] {
                Diagnostic::MissingDeclaration { name: nm } => nm@ == sn@,
                _ => false,
            });
        },
    }
}

proof fn lemma_defer_covers(f: FacView, t: DeferredType, ns: Option<String>)
    requires
        opt_str_matches(t.namespace, ns),
    ensures
        schema_request_covered(spec_defer_type(f, t), ns, t.schema_name@),
{
    let r = spec_defer_type(f, t);
    if dt_exists(f.types, t) {
        let i = choose|i: int| 0 <= i < f.types.len() && dt_matches(#[trigger] f.types[i], t);
        assert(r.types[i].schema_name@ == t.schema_name@ && opt_str_matches(
            r.types[i].namespace,
            ns,
        ));
    } else if f.budget == 0 {
        assert(match r.diags[r.diags.len() - 1] {
            Diagnostic::MissingDeclaration { name: nm } => nm@ == t.schema_name@,
            Diagnostic::WorkLimitExceeded { name: Some(nm) } => nm@ == t.schema_name@,
            _ => false,
        });
    } else {
        assert(r.types[r.types.len() - 1].schema_name@ == t.schema_name@ && opt_str_matches(
            r.types[r.types.len() - 1].namespace,
            ns,
        ));
    }
}

proof fn lemma_map_schema_covers(
    st: EngState,
    m: Module,
    file: String,
    node: int,
    sn: String,
    ns: Option<String>,
    depth: nat,
)
    ensures
        schema_request_covered(spec_map_schema(st, m, file, node, sn, ns, depth).0, ns, sn@),
{
    let r = spec_map_schema(st, m, file, node, sn, ns, depth);
    if spec_defined_has(st.0.defined, ns, sn@) {
        assert(r.0.defined == st.0.defined);
    } else if st.0.budget == 0 || depth == 0 {
        assert(match r.0.diags[r.0.diags.len() - 1] {
            Diagnostic::MissingDeclaration { name: nm } => nm@ == sn@,
            Diagnostic::WorkLimitExceeded { name: Some(nm) } => nm@ == sn@,
            _ => false,
        });
    } else {
        let f1 = FacView {
            budget: (st.0.budget - 1) as nat,
            defined: st.0.defined.push(DefinedSchema { namespace: ns, name: sn }),
            ..st.0
        };
        assert(opt_str_matches(f1.defined[f1.defined.len() - 1].namespace, ns)
            && f1.defined[f1.defined.len() - 1].name@ == sn@);
        assert(spec_defined_has(f1.defined, ns, sn@));
        let s = spec_materialize(m, st.0.tables, file@, ns, node);
        let d = st.1;
        let d1 = match ns {
            Some(nsname) => {
                let (da, idx) = spec_component_index(d, nsname);
                OpenApiView {
                    paths: da.paths,
                    components: da.components.update(
                        idx,
                        crate::schema::ComponentView {
                            name: da.components[idx].name,
                            schema: SchemaView {
                                data_type: Some(DataType::Object),
                                ..spec_set_property(da.components[idx].schema, sn, s)
                            },
                        },
                    ),
                }
            },
            None => {
                let (da, idx) = spec_component_index(d, sn);
                OpenApiView {
                    paths: da.paths,
                    components: da.components.update(
                        idx,
                        crate::schema::ComponentView { name: da.components[idx].name, schema: s },
                    ),
                }
            },
        };
        let refs = spec_refs(m, st.0.tables, file@, node);
        lemma_define_refs_ext((f1, d1), m, file, ns, refs, 0, (depth - 1) as nat);
        lemma_covered_mono(f1, r.0, ns, sn@);
    }
}

/// The final sweep closes the books: after it, every schema obligation ever
/// recorded is either materialized in the document or excused by a missing-
/// declaration diagnostic — no obligation is passed over in silence.
pub proof fn lemma_sweep_covers(f: FacView, k: int)
    requires
        0 <= k < f.types.len(),
    ensures
        spec_defined_has(spec_sweep(f, 0).defined, f.types[k].namespace, f.types[k].schema_name@)
            || diag_excuses(spec_sweep(f, 0).diags, f.types[k].schema_name@),
{
    lemma_sweep_covers_from(f, 0, k);
}

proof fn lemma_sweep_covers_from(f: FacView, i: int, k: int)
    requires
        0 <= i <= k < f.types.len(),
    ensures
        spec_defined_has(spec_sweep(f, i).defined, f.types[k].namespace, f.types[k].schema_name@)
            || diag_excuses(spec_sweep(f, i).diags, f.types[k].schema_name@),
    decreases f.types.len() - i,
{
    let dt = f.types[i];
    let f1 = if !spec_defined_has(f.defined, dt.namespace, dt.schema_name@) {
        fac_diag(f, Diagnostic::MissingDeclaration { name: dt.schema_name })
    } else {
        f
    };
    assert(f1.types == f.types && f1.defined == f.defined);
    if i == k {
        if spec_defined_has(f.defined, dt.namespace, dt.schema_name@) {
            lemma_sweep_defined_stable(f1, i + 1, dt.namespace, dt.schema_name@);
        } else {
            assert(match f1.diags[f1.diags.len() - 1] {
                Diagnostic::MissingDeclaration { name: nm } => nm@ == dt.schema_name@,
                _ => false,
            });
            assert(diag_excuses(f1.diags, dt.schema_name@));
            lemma_sweep_diag_stable(f1, i + 1, dt.schema_name@);
        }
    } else {
        lemma_sweep_covers_from(f1, i + 1, k);
        assert(f1.types[k] == f.types[k]);
    }
}

proof fn lemma_sweep_defined_stable(f: FacView, i: int, ns: Option<String>, n: Seq<char>)
    requires
        spec_defined_has(f.defined, ns, n),
        0 <= i,
    ensures
        spec_defined_has(spec_sweep(f, i).defined, ns, n),
    decreases f.types.len() - i,
{
    if i < f.types.len() {
        let dt = f.types[i];
        let f1 = if !spec_defined_has(f.defined, dt.namespace, dt.schema_name@) {
            fac_diag(f, Diagnostic::MissingDeclaration { name: dt.schema_name })
        } else {
            f
        };
        assert(f1.defined == f.defined);
        lemma_sweep_defined_stable(f1, i + 1, ns, n);
    }
}

proof fn lemma_sweep_diag_stable(f: FacView, i: int, n: Seq<char>)
    requires
        diag_excuses(f.diags, n),
        0 <= i,
    ensures
        diag_excuses(spec_sweep(f, i).diags, n),
    decreases f.types.len() - i,
{
    if i < f.types.len() {
        let dt = f.types[i];
        let f1 = if !spec_defined_has(f.defined, dt.namespace, dt.schema_name@) {
            fac_diag(f, Diagnostic::MissingDeclaration { name: dt.schema_name })
        } else {
            f
        };
        lemma_diag_mono(f.diags, f1.diags, n);
        lemma_sweep_diag_stable(f1, i + 1, n);
    }
}

/// The component slot at `idx` carries `name` and holds exactly `s`.
pub open spec fn component_defines(d: OpenApiView, idx: int, name: Seq<char>, s: SchemaView) -> bool {
    &&& 0 <= idx < d.components.len()
    &&& d.components[idx].name@ == name
    &&& d.components[idx].schema == s
}

/// Cross-file invariance of schema content: when the walk lands on a
/// terminal declaration, the schema written under `schema_name` is
/// `spec_materialize` of the declaring file's tree and table — a function of
/// the declaration alone. Which file referenced the type, under which import
/// name, or through how many re-export hops the obligation traveled plays no
/// part, so moving a declaration to another file and re-exporting it leaves
/// the generated content unchanged.
pub proof fn lemma_schema_content_from_declaration(
    st: EngState,
    m: Module,
    file: String,
    node: int,
    sn: String,
    depth: nat,
)
    requires
        !spec_defined_has(st.0.defined, None, sn@),
        st.0.budget > 0,
        depth > 0,
        spec_refs(m, st.0.tables, file@, node).len() == 0,
    ensures
        exists|idx: int|
            component_defines(
                spec_map_schema(st, m, file, node, sn, None, depth).1,
                idx,
                sn@,
                spec_materialize(m, st.0.tables, file@, None, node),
            ),
{
    let s = spec_materialize(m, st.0.tables, file@, None, node);
    let d = st.1;
    let (da, idx) = spec_component_index(d, sn);
    crate::schema::lemma_component_pos_name(d.components, sn@);
    let d1 = OpenApiView {
        paths: da.paths,
        components: da.components.update(
            idx,
            crate::schema::ComponentView { name: da.components[idx].name, schema: s },
        ),
    };
    let f1 = FacView {
        budget: (st.0.budget - 1) as nat,
        defined: st.0.defined.push(DefinedSchema { namespace: None, name: sn }),
        ..st.0
    };
    let refs = spec_refs(m, st.0.tables, file@, node);
    assert(spec_define_refs((f1, d1), m, file, None, refs, 0, (depth - 1) as nat) == (f1, d1));
    let d2 = spec_map_schema(st, m, file, node, sn, None, depth).1;
    assert(d2 == d1);
    assert(component_defines(d1, idx, sn@, s));
}

} // verus!