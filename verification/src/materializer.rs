use vstd::prelude::*;
use crate::ast::{KeywordKind, Module, NodeKind};
use crate::declarations::{resolved_key, DeclarationTables, FileTableView, SymbolName, tables_wf};
use crate::schema::{
    empty_schema, props_view, typed_schema, ApiSchema, DataType, Property, PropertyView,
    SchemaView,
};

verus! {

/// What a terminal type declaration materializes to: the schema fragment for
/// the node at `node` of `m`, with type references resolved through `file`'s
/// symbol table and pointed into `ns`.
///
/// Keyword types map to primitive schemas (`bigint` counts as a number,
/// `symbol` as a string); array types nest their element; type literals,
/// interfaces and classes become objects with one property per plainly-named
/// member; a type alias dissolves into its right-hand side; a reference to a
/// named type becomes a bare reference schema under the referent's root name.
/// Every other construct is out of scope and yields the empty schema.
pub open spec fn spec_materialize(
    m: Module,
    tv: Seq<FileTableView>,
    file: Seq<char>,
    ns: Option<String>,
    node: int,
) -> SchemaView
    decreases m.count() - node, 1int, 0int,
        when m.wf() && 0 <= node < m.count()
{
    match m.node(node).kind {
        NodeKind::TsKeywordType { kind } => match kind {
            KeywordKind::Number | KeywordKind::BigInt => typed_schema(DataType::Number),
            KeywordKind::Str | KeywordKind::Sym => typed_schema(DataType::Str),
            KeywordKind::Boolean => typed_schema(DataType::Boolean),
            KeywordKind::Other => empty_schema(),
        },
        NodeKind::TsArrayType => if m.kids(node).len() > 0 {
            SchemaView {
                data_type: Some(DataType::Array),
                items: seq![spec_materialize(m, tv, file, ns, m.kids(node)[0] as int)],
                ..empty_schema()
            }
        } else {
            typed_schema(DataType::Array)
        },
        NodeKind::TsTypeLit | NodeKind::InterfaceDecl { .. } | NodeKind::ClassDecl { .. }
            | NodeKind::ClassExpr { .. } => SchemaView {
            data_type: Some(DataType::Object),
            properties: spec_member_props(m, tv, file, ns, node, 0),
            ..empty_schema()
        },
        NodeKind::TypeAliasDecl { .. } => if m.kids(node).len() > 0 {
            spec_materialize(m, tv, file, ns, m.kids(node)[0] as int)
        } else {
            empty_schema()
        },
        NodeKind::TsTypeRef { name } => match name {
            Some(n) => match resolved_key(tv, file, SymbolName::Named(n)) {
                SymbolName::Named(root) => SchemaView {
                    reference: Some(root),
                    namespace: ns,
                    ..empty_schema()
                },
                SymbolName::Default => empty_schema(),
            },
            None => empty_schema(),
        },
        _ => empty_schema(),
    }
}

/// The properties contributed by the members of `node` from position `i` on:
/// one per property signature or class property whose key is a plain
/// identifier and which carries a type; everything else is skipped.
pub open spec fn spec_member_props(
    m: Module,
    tv: Seq<FileTableView>,
    file: Seq<char>,
    ns: Option<String>,
    node: int,
    i: int,
) -> Seq<PropertyView>
    decreases m.count() - node, 0int, m.kids(node).len() - i,
        when m.wf() && 0 <= node < m.count() && 0 <= i
{
    if i >= m.kids(node).len() {
        Seq::empty()
    } else {
        let c = m.kids(node)[i] as int;
        let head: Seq<PropertyView> = match m.node(c).kind {
            NodeKind::PropertySignature { key: Some(k) } | NodeKind::ClassProp { key: Some(k) } => {
                if m.kids(c).len() > 0 {
                    seq![
                        PropertyView {
                            name: k,
                            schema: spec_materialize(m, tv, file, ns, m.kids(c)[0] as int),
                        },
                    ]
                } else {
                    Seq::empty()
                }
            },
            _ => Seq::empty(),
        };
        head + spec_member_props(m, tv, file, ns, node, i + 1)
    }
}

/// The root names of the type references inside the materialized schema, in
/// the order the walk meets them. Each asks the engine for a schema
/// definition of its own.
pub open spec fn spec_refs(
    m: Module,
    tv: Seq<FileTableView>,
    file: Seq<char>,
    node: int,
) -> Seq<String>
    decreases m.count() - node, 1int, 0int,
        when m.wf() && 0 <= node < m.count()
{
    match m.node(node).kind {
        NodeKind::TsArrayType => if m.kids(node).len() > 0 {
            spec_refs(m, tv, file, m.kids(node)[0] as int)
        } else {
            Seq::empty()
        },
        NodeKind::TsTypeLit | NodeKind::InterfaceDecl { .. } | NodeKind::ClassDecl { .. }
            | NodeKind::ClassExpr { .. } => spec_member_refs(m, tv, file, node, 0),
        NodeKind::TypeAliasDecl { .. } => if m.kids(node).len() > 0 {
            spec_refs(m, tv, file, m.kids(node)[0] as int)
        } else {
            Seq::empty()
        },
        NodeKind::TsTypeRef { name } => match name {
            Some(n) => match resolved_key(tv, file, SymbolName::Named(n)) {
                SymbolName::Named(root) => seq![root],
                SymbolName::Default => Seq::empty(),
            },
            None => Seq::empty(),
        },
        _ => Seq::empty(),
    }
}

pub open spec fn spec_member_refs(
    m: Module,
    tv: Seq<FileTableView>,
    file: Seq<char>,
    node: int,
    i: int,
) -> Seq<String>
    decreases m.count() - node, 0int, m.kids(node).len() - i,
        when m.wf() && 0 <= node < m.count() && 0 <= i
{
    if i >= m.kids(node).len() {
        Seq::empty()
    } else {
        let c = m.kids(node)[i] as int;
        let head: Seq<String> = match m.node(c).kind {
            NodeKind::PropertySignature { key: Some(_) } | NodeKind::ClassProp { key: Some(_) } => {
                if m.kids(c).len() > 0 {
                    spec_refs(m, tv, file, m.kids(c)[0] as int)
                } else {
                    Seq::empty()
                }
            },
            _ => Seq::empty(),
        };
        head + spec_member_refs(m, tv, file, node, i + 1)
    }
}

/// Materialize the terminal type declaration at `node` into a schema
/// fragment, resolving nested type references through `file`'s table and
/// appending their root names to `refs` so the engine can define them.
pub fn materialize_type(
    m: &Module,
    tables: &DeclarationTables,
    file: &String,
    ns: &Option<String>,
    node: usize,
    refs: &mut Vec<String>,
) -> (s: ApiSchema)
    requires
        m.wf(),
        node < m.count(),
        tables_wf(tables@),
    ensures
        s@ == spec_materialize(*m, tables@, file@, *ns, node as int),
        final(refs)@ == old(refs)@ + spec_refs(*m, tables@, file@, node as int),
    decreases m.count() - node, 1int, 0int,
{
    let ghost old_refs = refs@;
    match &m.nodes[node].kind {
        NodeKind::TsKeywordType { kind } => {
            proof {
                assert(refs@ =~= old_refs + spec_refs(*m, tables@, file@, node as int));
            }
            let mut s = ApiSchema::new();
            match kind {
                KeywordKind::Number | KeywordKind::BigInt => {
                    s.data_type = Some(DataType::Number);
                },
                KeywordKind::Str | KeywordKind::Sym => {
                    s.data_type = Some(DataType::Str);
                },
                KeywordKind::Boolean => {
                    s.data_type = Some(DataType::Boolean);
                },
                KeywordKind::Other => {},
            }
            s
        },
        NodeKind::TsArrayType => {
            if m.nodes[node].children.len() > 0 {
                let c = m.nodes[node].children[0];
                let elem = materialize_type(m, tables, file, ns, c, refs);
                let mut s = ApiSchema::new();
                s.data_type = Some(DataType::Array);
                s.items = Some(Box::new(elem));
                proof {
                    assert(s@.items =~= seq![
                        spec_materialize(*m, tables@, file@, *ns, m.kids(node as int)[0] as int),
                    ]);
                    assert(s@ =~= spec_materialize(*m, tables@, file@, *ns, node as int));
                }
                s
            } else {
                let mut s = ApiSchema::new();
                s.data_type = Some(DataType::Array);
                proof {
                    assert(refs@ =~= old_refs + spec_refs(*m, tables@, file@, node as int));
                }
                s
            }
        },
        NodeKind::TsTypeLit | NodeKind::InterfaceDecl { .. } | NodeKind::ClassDecl { .. }
            | NodeKind::ClassExpr { .. } => {
            let mut s = ApiSchema::new();
            s.data_type = Some(DataType::Object);
            let mut props: Vec<Property> = Vec::new();
            materialize_members(m, tables, file, ns, node, 0, refs, &mut props);
            s.properties = props;
            proof {
                assert(s@.properties =~= spec_member_props(
                    *m,
                    tables@,
                    file@,
                    *ns,
                    node as int,
                    0,
                ));
                assert(s@ =~= spec_materialize(*m, tables@, file@, *ns, node as int));
                assert(refs@ =~= old_refs + spec_refs(*m, tables@, file@, node as int));
            }
            s
        },
        NodeKind::TypeAliasDecl { .. } => {
            if m.nodes[node].children.len() > 0 {
                let c = m.nodes[node].children[0];
                materialize_type(m, tables, file, ns, c, refs)
            } else {
                proof {
                    assert(refs@ =~= old_refs + spec_refs(*m, tables@, file@, node as int));
                }
                ApiSchema::new()
            }
        },
        NodeKind::TsTypeRef { name } => {
            match name {
                Some(n) => {
                    let key = tables.find_type_name(&SymbolName::Named(n.clone()), file);
                    match key {
                        SymbolName::Named(root) => {
                            let mut s = ApiSchema::new();
                            s.reference = Some(root.clone());
                            s.namespace = match ns {
                                Some(x) => Some(x.clone()),
                                None => None,
                            };
                            refs.push(root);
                            proof {
                                assert(refs@ =~= old_refs + spec_refs(
                                    *m,
                                    tables@,
                                    file@,
                                    node as int,
                                ));
                                assert(s@ =~= spec_materialize(
                                    *m,
                                    tables@,
                                    file@,
                                    *ns,
                                    node as int,
                                ));
                            }
                            s
                        },
                        SymbolName::Default => {
                            proof {
                                assert(refs@ =~= old_refs + spec_refs(
                                    *m,
                                    tables@,
                                    file@,
                                    node as int,
                                ));
                            }
                            ApiSchema::new()
                        },
                    }
                },
                None => {
                    proof {
                        assert(refs@ =~= old_refs + spec_refs(*m, tables@, file@, node as int));
                    }
                    ApiSchema::new()
                },
            }
        },
        _ => {
            proof {
                assert(refs@ =~= old_refs + spec_refs(*m, tables@, file@, node as int));
            }
            ApiSchema::new()
        },
    }
}

/// Walk the members of `node` from position `i` on, appending one property
/// per plainly-keyed, typed member to `props` and the nested reference names
/// to `refs`.
fn materialize_members(
    m: &Module,
    tables: &DeclarationTables,
    file: &String,
    ns: &Option<String>,
    node: usize,
    i: usize,
    refs: &mut Vec<String>,
    props: &mut Vec<Property>,
)
    requires
        m.wf(),
        node < m.count(),
        tables_wf(tables@),
    ensures
        props_view(final(props)@) == props_view(old(props)@) + spec_member_props(
            *m,
            tables@,
            file@,
            *ns,
            node as int,
            i as int,
        ),
        final(refs)@ == old(refs)@ + spec_member_refs(*m, tables@, file@, node as int, i as int),
    decreases m.count() - node, 0int, m.kids(node as int).len() - i,
{
    let ghost old_props = props@;
    let ghost old_refs = refs@;
    let n = m.nodes[node].children.len();
    if i >= n {
        proof {
            assert(props_view(props@) =~= props_view(old_props) + spec_member_props(
                *m,
                tables@,
                file@,
                *ns,
                node as int,
                i as int,
            ));
            assert(refs@ =~= old_refs + spec_member_refs(
                *m,
                tables@,
                file@,
                node as int,
                i as int,
            ));
        }
        return;
    }
    let c = m.nodes[node].children[i];
    let key: Option<&String> = match &m.nodes[c].kind {
        NodeKind::PropertySignature { key: Some(k) } => Some(k),
        NodeKind::ClassProp { key: Some(k) } => Some(k),
        _ => None,
    };
    match key {
        Some(k) => {
            if m.nodes[c].children.len() > 0 {
                let tc = m.nodes[c].children[0];
                let s = materialize_type(m, tables, file, ns, tc, refs);
                let ghost mid_props = props@;
                props.push(Property { name: k.clone(), schema: s });
                proof {
                    assert(props@.drop_last() =~= mid_props);
                    assert(props_view(props@) =~= props_view(mid_props).push(
                        PropertyView { name: *k, schema: s@ },
                    ));
                }
            }
        },
        None => {},
    }
    materialize_members(m, tables, file, ns, node, i + 1, refs, props);
    proof {
        assert(props_view(props@) =~= props_view(old_props) + spec_member_props(
            *m,
            tables@,
            file@,
            *ns,
            node as int,
            i as int,
        ));
        assert(refs@ =~= old_refs + spec_member_refs(*m, tables@, file@, node as int, i as int));
    }
}

} // verus!
