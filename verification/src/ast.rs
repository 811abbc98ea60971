use vstd::prelude::*;

verus! {

/// The keyword types that can appear in a type position.
#[derive(Clone, Debug)]
pub enum KeywordKind {
    Number,
    BigInt,
    Str,
    Sym,
    Boolean,
    Other,
}

/// A literal appearing in a literal type, such as `"V1"`, `true` or `201`.
#[derive(Clone, Debug)]
pub enum LitKind {
    Str(String),
    Num(String),
    Bool(bool),
    Other,
}

/// The kind of a syntax-tree node, together with the plain data the engine
/// reads off that node. Children are held separately, in `Node::children`.
///
/// Node kinds that the engine does not interpret (unions, mapped types,
/// statements it only traverses, ...) are represented as `Unknown`; their
/// children still take part in traversal.
#[derive(Clone, Debug)]
pub enum NodeKind {
    /// The root of a parsed file; children are the top-level items.
    Module,
    /// `export <decl>`; one child, the inner declaration.
    ExportDecl,
    /// `export default <expr>`; one child, the exported expression.
    ExportDefaultExpr,
    /// `export { ... } from 'src'` (or without a source); children are specifiers.
    NamedExport { src: Option<String> },
    /// One name inside a named export: `orig` or `orig as exported`.
    ExportSpecifier { orig: String, exported: Option<String> },
    /// `import ... from 'src'`; children are specifiers.
    ImportDecl { src: String },
    /// `import local from '...'`.
    ImportDefaultSpecifier { local: String },
    /// `import { imported as local } from '...'`; `imported` is `None` when not renamed.
    ImportNamedSpecifier { local: String, imported: Option<String> },
    /// `class name { ... }`; children are class members.
    ClassDecl { name: String },
    /// A class expression, possibly anonymous; children are class members.
    ClassExpr { name: Option<String> },
    /// A class property; `key` is `None` for computed keys; one optional child, the type.
    ClassProp { key: Option<String> },
    /// A class member that is not a plain property (method, getter, ...).
    ClassMemberOther,
    /// `interface name { ... }`; children are property signatures.
    InterfaceDecl { name: String },
    /// A property signature in an interface or type literal; one optional child, the type.
    PropertySignature { key: Option<String> },
    /// `type name = ...`; one child, the aliased type.
    TypeAliasDecl { name: String },
    /// `enum name { ... }`.
    EnumDecl { name: String },
    /// One declarator of a variable statement. The children are the
    /// initializer (when `has_init`) followed by the annotated type
    /// (when `has_ann`).
    VarDeclarator { name: Option<String>, has_init: bool, has_ann: bool },
    /// A call; children are the callee followed by the arguments.
    CallExpr,
    /// `new ...`; children are the callee followed by the arguments.
    NewExpr,
    /// An identifier expression.
    Ident { sym: String },
    /// A string literal expression.
    StrLit { value: String },
    /// A numeric literal expression; the raw source text.
    NumLit { raw: String },
    /// A boolean literal expression.
    BoolLit { value: bool },
    /// An array literal; children are the elements.
    ArrayLit,
    /// An object literal; children are its properties.
    ObjectLit,
    /// `key: value` inside an object literal; `key` is `None` for computed
    /// keys; one child, the value.
    KeyValueProp { key: Option<String> },
    /// An arrow function; the first `n_params` children are `Param` nodes,
    /// the rest is the body.
    ArrowExpr { n_params: usize },
    /// One formal parameter; `name` is `None` for destructuring patterns;
    /// one optional child, the annotated type.
    Param { name: Option<String> },
    /// A block of statements; children are the statements.
    BlockStmt,
    /// `expr as T`; children are the expression then the type.
    TsAsExpr,
    /// `<T>expr`; children are the expression then the type.
    TsTypeAssertion,
    /// A keyword type such as `number`.
    TsKeywordType { kind: KeywordKind },
    /// A reference to a named type; `name` is `None` for qualified names;
    /// children are the type arguments.
    TsTypeRef { name: Option<String> },
    /// `T[]`; one child, the element type.
    TsArrayType,
    /// `{ a: A; b: B }` in a type position; children are property signatures.
    TsTypeLit,
    /// A literal type such as `"V1"` or `true`.
    TsLitType { lit: LitKind },
    /// Anything else; children are the traversable subexpressions.
    Unknown,
}

/// One node of the arena: its kind, the arena indices of its children in
/// source order, and the arena index of its parent.
#[derive(Clone, Debug)]
pub struct Node {
    pub kind: NodeKind,
    pub children: Vec<usize>,
    pub parent: Option<usize>,
}

/// A parsed file: an arena of nodes in preorder. Index 0 is the root.
/// Well-formedness (`wf`) requires every child index to be strictly greater
/// than its parent's index, which both rules out cycles and orients all
/// traversals.
#[derive(Clone, Debug)]
pub struct Module {
    pub nodes: Vec<Node>,
}

impl Module {
    pub open spec fn count(&self) -> nat {
        self.nodes@.len()
    }

    pub open spec fn node(&self, i: int) -> Node {
        self.nodes@[i]
    }

    pub open spec fn kids(&self, i: int) -> Seq<usize> {
        self.nodes@[i].children@
    }

    /// Every child stands strictly after its parent in the arena and inside
    /// bounds; every parent pointer goes strictly backwards.
    pub open spec fn wf(&self) -> bool {
        &&& forall|i: int, j: int|
            0 <= i < self.nodes@.len() && 0 <= j < self.nodes@[i].children@.len() ==> {
                &&& i < #[trigger] self.nodes@[i].children@[j]
                &&& self.nodes@[i].children@[j] < self.nodes@.len()
            }
        &&& forall|i: int|
            0 <= i < self.nodes@.len() ==> match (#[trigger] self.nodes@[i]).parent {
                Some(p) => p < i,
                None => true,
            }
    }

    /// The number of nodes in the arena.
    pub fn len(&self) -> (r: usize)
        ensures
            r == self.count(),
    {
        self.nodes.len()
    }
}

/// A handle to one node of a `Module` arena.
#[derive(Clone, Copy, Debug, PartialEq, Eq, Structural)]
pub struct SchemyNode {
    pub index: usize,
}

/// The argument indices of a call-like node: all children but the callee.
pub open spec fn spec_args(m: Module, i: int) -> Seq<usize> {
    match m.node(i).kind {
        NodeKind::CallExpr | NodeKind::NewExpr => if m.kids(i).len() > 0 {
            m.kids(i).skip(1)
        } else {
            Seq::empty()
        },
        _ => Seq::empty(),
    }
}

/// The callee index of a call-like node.
pub open spec fn spec_callee(m: Module, i: int) -> Option<usize> {
    match m.node(i).kind {
        NodeKind::CallExpr | NodeKind::NewExpr => if m.kids(i).len() > 0 {
            Some(m.kids(i)[0])
        } else {
            None
        },
        _ => None,
    }
}

/// The member indices of a class-like or interface node.
pub open spec fn spec_body(m: Module, i: int) -> Seq<usize> {
    match m.node(i).kind {
        NodeKind::ClassDecl { .. } | NodeKind::ClassExpr { .. } | NodeKind::InterfaceDecl {
            ..
        } => m.kids(i),
        _ => Seq::empty(),
    }
}

/// The member indices of a type literal.
pub open spec fn spec_members(m: Module, i: int) -> Seq<usize> {
    match m.node(i).kind {
        NodeKind::TsTypeLit => m.kids(i),
        _ => Seq::empty(),
    }
}

/// The specifier indices of an import or named export.
pub open spec fn spec_specifiers(m: Module, i: int) -> Seq<usize> {
    match m.node(i).kind {
        NodeKind::ImportDecl { .. } | NodeKind::NamedExport { .. } => m.kids(i),
        _ => Seq::empty(),
    }
}

/// The parameter indices of a node: the type arguments of a type reference,
/// or the formal parameters of an arrow function.
pub open spec fn spec_params(m: Module, i: int) -> Seq<usize> {
    match m.node(i).kind {
        NodeKind::TsTypeRef { .. } => m.kids(i),
        NodeKind::ArrowExpr { n_params } => if n_params <= m.kids(i).len() {
            m.kids(i).take(n_params as int)
        } else {
            m.kids(i)
        },
        _ => Seq::empty(),
    }
}

/// The type annotation or aliased type hanging off a node, if any.
pub open spec fn spec_type_ann(m: Module, i: int) -> Option<usize> {
    match m.node(i).kind {
        NodeKind::TypeAliasDecl { .. } | NodeKind::PropertySignature { .. } | NodeKind::ClassProp {
            ..
        } | NodeKind::Param { .. } => if m.kids(i).len() > 0 {
            Some(m.kids(i)[0])
        } else {
            None
        },
        _ => None,
    }
}

impl SchemyNode {
    /// Fetch the handle for an arbitrary arena index, as the accessors below
    /// return them.
    pub fn get(&self, m: &Module, index: usize) -> (r: Option<SchemyNode>)
        ensures
            r == if index < m.count() {
                Some(SchemyNode { index })
            } else {
                None::<SchemyNode>
            },
    {
        if index < m.nodes.len() {
            Some(SchemyNode { index })
        } else {
            None
        }
    }

    /// The arguments of a call or `new` expression.
    pub fn args(&self, m: &Module) -> (r: Vec<SchemyNode>)
        requires
            m.wf(),
            self.index < m.count(),
        ensures
            r@.len() == spec_args(*m, self.index as int).len(),
            forall|k: int|
                0 <= k < r@.len() ==> #[trigger] r@[k].index == spec_args(
                    *m,
                    self.index as int,
                )[k] && r@[k].index < m.count() && r@[k].index > self.index,
    {
        let node = &m.nodes[self.index];
        let mut r: Vec<SchemyNode> = Vec::new();
        match node.kind {
            NodeKind::CallExpr | NodeKind::NewExpr => {
                let mut j: usize = 1;
                while j < node.children.len()
                    invariant
                        1 <= j <= node.children@.len() || node.children@.len() == 0,
                        m.wf(),
                        self.index < m.count(),
                        node == m.node(self.index as int),
                        r@.len() == if node.children@.len() == 0 {
                            0int
                        } else {
                            j - 1
                        },
                        forall|k: int|
                            0 <= k < r@.len() ==> #[trigger] r@[k].index == node.children@[k + 1],
                    decreases node.children@.len() - j,
                {
                    r.push(SchemyNode { index: node.children[j] });
                    j = j + 1;
                }
            },
            _ => {},
        }
        r
    }

    /// The callee of a call or `new` expression.
    pub fn callee(&self, m: &Module) -> (r: Option<SchemyNode>)
        requires
            m.wf(),
            self.index < m.count(),
        ensures
            r matches Some(n) ==> spec_callee(*m, self.index as int) == Some(n.index)
                && self.index < n.index < m.count(),
            r is None ==> spec_callee(*m, self.index as int) is None,
    {
        let node = &m.nodes[self.index];
        match node.kind {
            NodeKind::CallExpr | NodeKind::NewExpr => {
                if node.children.len() > 0 {
                    Some(SchemyNode { index: node.children[0] })
                } else {
                    None
                }
            },
            _ => None,
        }
    }

    /// The members of a class body or interface body.
    pub fn body(&self, m: &Module) -> (r: Vec<SchemyNode>)
        requires
            m.wf(),
            self.index < m.count(),
        ensures
            r@.len() == spec_body(*m, self.index as int).len(),
            forall|k: int|
                0 <= k < r@.len() ==> #[trigger] r@[k].index == spec_body(*m, self.index as int)[k]
                    && r@[k].index < m.count() && r@[k].index > self.index,
    {
        let node = &m.nodes[self.index];
        match node.kind {
            NodeKind::ClassDecl { .. } | NodeKind::ClassExpr { .. } | NodeKind::InterfaceDecl {
                ..
            } => collect_children(m, self.index),
            _ => Vec::new(),
        }
    }

    /// The class node carrying the members of a class declaration or
    /// expression. In this arena the members hang directly off the
    /// declaration, so the handle is returned unchanged.
    pub fn class(&self, m: &Module) -> (r: Option<SchemyNode>)
        requires
            self.index < m.count(),
        ensures
            r == match m.node(self.index as int).kind {
                NodeKind::ClassDecl { .. } | NodeKind::ClassExpr { .. } => Some(*self),
                _ => None::<SchemyNode>,
            },
    {
        let node = &m.nodes[self.index];
        match node.kind {
            NodeKind::ClassDecl { .. } | NodeKind::ClassExpr { .. } => Some(*self),
            _ => None,
        }
    }

    /// The interface body of an interface declaration; as with `class`, the
    /// members hang directly off the declaration.
    pub fn interface_body(&self, m: &Module) -> (r: Option<SchemyNode>)
        requires
            self.index < m.count(),
        ensures
            r == match m.node(self.index as int).kind {
                NodeKind::InterfaceDecl { .. } => Some(*self),
                _ => None::<SchemyNode>,
            },
    {
        let node = &m.nodes[self.index];
        match node.kind {
            NodeKind::InterfaceDecl { .. } => Some(*self),
            _ => None,
        }
    }

    /// The declaration wrapped by an `export` declaration.
    pub fn decl(&self, m: &Module) -> (r: Option<SchemyNode>)
        requires
            m.wf(),
            self.index < m.count(),
        ensures
            r == match m.node(self.index as int).kind {
                NodeKind::ExportDecl => if m.kids(self.index as int).len() > 0 {
                    Some(SchemyNode { index: m.kids(self.index as int)[0] })
                } else {
                    None::<SchemyNode>
                },
                _ => None::<SchemyNode>,
            },
            r matches Some(n) ==> self.index < n.index < m.count(),
    {
        let node = &m.nodes[self.index];
        match node.kind {
            NodeKind::ExportDecl => {
                if node.children.len() > 0 {
                    Some(SchemyNode { index: node.children[0] })
                } else {
                    None
                }
            },
            _ => None,
        }
    }

    /// The element type of an array type.
    pub fn elem_type(&self, m: &Module) -> (r: Option<SchemyNode>)
        requires
            m.wf(),
            self.index < m.count(),
        ensures
            r == match m.node(self.index as int).kind {
                NodeKind::TsArrayType => if m.kids(self.index as int).len() > 0 {
                    Some(SchemyNode { index: m.kids(self.index as int)[0] })
                } else {
                    None::<SchemyNode>
                },
                _ => None::<SchemyNode>,
            },
            r matches Some(n) ==> self.index < n.index < m.count(),
    {
        let node = &m.nodes[self.index];
        match node.kind {
            NodeKind::TsArrayType => {
                if node.children.len() > 0 {
                    Some(SchemyNode { index: node.children[0] })
                } else {
                    None
                }
            },
            _ => None,
        }
    }

    /// The members of a type literal.
    pub fn members(&self, m: &Module) -> (r: Vec<SchemyNode>)
        requires
            m.wf(),
            self.index < m.count(),
        ensures
            r@.len() == spec_members(*m, self.index as int).len(),
            forall|k: int|
                0 <= k < r@.len() ==> #[trigger] r@[k].index == spec_members(
                    *m,
                    self.index as int,
                )[k] && r@[k].index < m.count() && r@[k].index > self.index,
    {
        let node = &m.nodes[self.index];
        match node.kind {
            NodeKind::TsTypeLit => collect_children(m, self.index),
            _ => Vec::new(),
        }
    }

    /// The type arguments of a type reference, or the formal parameters of an
    /// arrow function.
    pub fn params(&self, m: &Module) -> (r: Vec<SchemyNode>)
        requires
            m.wf(),
            self.index < m.count(),
        ensures
            r@.len() == spec_params(*m, self.index as int).len(),
            forall|k: int|
                0 <= k < r@.len() ==> #[trigger] r@[k].index == spec_params(
                    *m,
                    self.index as int,
                )[k] && r@[k].index < m.count() && r@[k].index > self.index,
    {
        let node = &m.nodes[self.index];
        match node.kind {
            NodeKind::TsTypeRef { .. } => collect_children(m, self.index),
            NodeKind::ArrowExpr { n_params } => {
                let limit = if n_params <= node.children.len() {
                    n_params
                } else {
                    node.children.len()
                };
                let mut r: Vec<SchemyNode> = Vec::new();
                let mut j: usize = 0;
                while j < limit
                    invariant
                        j <= limit,
                        m.wf(),
                        self.index < m.count(),
                        node == m.node(self.index as int),
                        limit <= node.children@.len(),
                        r@.len() == j,
                        forall|k: int|
                            0 <= k < r@.len() ==> #[trigger] r@[k].index == node.children@[k],
                    decreases limit - j,
                {
                    r.push(SchemyNode { index: node.children[j] });
                    j = j + 1;
                }
                r
            },
            _ => Vec::new(),
        }
    }

    /// The type arguments of a type reference.
    pub fn type_params(&self, m: &Module) -> (r: Vec<SchemyNode>)
        requires
            m.wf(),
            self.index < m.count(),
        ensures
            r@.len() == (match m.node(self.index as int).kind {
                NodeKind::TsTypeRef { .. } => m.kids(self.index as int),
                _ => Seq::empty(),
            }).len(),
            forall|k: int|
                0 <= k < r@.len() ==> #[trigger] r@[k].index == m.kids(self.index as int)[k]
                    && r@[k].index < m.count() && r@[k].index > self.index,
    {
        let node = &m.nodes[self.index];
        match node.kind {
            NodeKind::TsTypeRef { .. } => collect_children(m, self.index),
            _ => Vec::new(),
        }
    }

    /// The parent of this node, if it has one.
    pub fn parent(&self, m: &Module) -> (r: Option<SchemyNode>)
        requires
            m.wf(),
            self.index < m.count(),
        ensures
            r == match m.node(self.index as int).parent {
                Some(p) => Some(SchemyNode { index: p }),
                None => None::<SchemyNode>,
            },
            r matches Some(n) ==> n.index < self.index,
    {
        let node = &m.nodes[self.index];
        match node.parent {
            Some(p) => Some(SchemyNode { index: p }),
            None => None,
        }
    }

    /// The specifiers of an import declaration or named export.
    pub fn specifiers(&self, m: &Module) -> (r: Vec<SchemyNode>)
        requires
            m.wf(),
            self.index < m.count(),
        ensures
            r@.len() == spec_specifiers(*m, self.index as int).len(),
            forall|k: int|
                0 <= k < r@.len() ==> #[trigger] r@[k].index == spec_specifiers(
                    *m,
                    self.index as int,
                )[k] && r@[k].index < m.count() && r@[k].index > self.index,
    {
        let node = &m.nodes[self.index];
        match node.kind {
            NodeKind::ImportDecl { .. } | NodeKind::NamedExport { .. } => collect_children(
                m,
                self.index,
            ),
            _ => Vec::new(),
        }
    }

    /// The handle itself when the node is a plain class property, `None` for
    /// any other class member.
    pub fn class_prop(&self, m: &Module) -> (r: Option<SchemyNode>)
        requires
            self.index < m.count(),
        ensures
            r == match m.node(self.index as int).kind {
                NodeKind::ClassProp { .. } => Some(*self),
                _ => None::<SchemyNode>,
            },
    {
        let node = &m.nodes[self.index];
        match node.kind {
            NodeKind::ClassProp { .. } => Some(*self),
            _ => None,
        }
    }

    /// The annotated or aliased type hanging off a type alias, property
    /// signature, class property or formal parameter.
    pub fn type_ann(&self, m: &Module) -> (r: Option<SchemyNode>)
        requires
            m.wf(),
            self.index < m.count(),
        ensures
            r matches Some(n) ==> spec_type_ann(*m, self.index as int) == Some(n.index)
                && self.index < n.index < m.count(),
            r is None ==> spec_type_ann(*m, self.index as int) is None,
    {
        let node = &m.nodes[self.index];
        match node.kind {
            NodeKind::TypeAliasDecl { .. } | NodeKind::PropertySignature { .. }
                | NodeKind::ClassProp { .. } | NodeKind::Param { .. } => {
                if node.children.len() > 0 {
                    Some(SchemyNode { index: node.children[0] })
                } else {
                    None
                }
            },
            _ => None,
        }
    }
}

/// All children of a node, as handles.
fn collect_children(m: &Module, index: usize) -> (r: Vec<SchemyNode>)
    requires
        m.wf(),
        index < m.count(),
    ensures
        r@.len() == m.kids(index as int).len(),
        forall|k: int|
            0 <= k < r@.len() ==> #[trigger] r@[k].index == m.kids(index as int)[k] && r@[k].index
                < m.count() && r@[k].index > index,
{
    let node = &m.nodes[index];
    let mut r: Vec<SchemyNode> = Vec::new();
    let mut j: usize = 0;
    while j < node.children.len()
        invariant
            j <= node.children@.len(),
            m.wf(),
            index < m.count(),
            node == m.node(index as int),
            r@.len() == j,
            forall|k: int| 0 <= k < r@.len() ==> #[trigger] r@[k].index == node.children@[k],
        decreases node.children@.len() - j,
    {
        r.push(SchemyNode { index: node.children[j] });
        j = j + 1;
    }
    r
}

} // verus!
