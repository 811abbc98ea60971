use vstd::prelude::*;
use crate::ast::{KeywordKind, LitKind, Module, NodeKind};
use crate::schema::DataType;

verus! {

/// Whether a string holds the same characters as a literal.
pub fn str_eq(a: &String, lit: &str) -> (r: bool)
    ensures
        r == (a@ == lit@),
{
    let owned: String = lit.to_owned();
    *a == owned
}

/// The options of a `Path(handler, { method, path, tags? })` call.
#[derive(Debug)]
pub struct PathOptions {
    pub method: Option<String>,
    pub path: Option<String>,
    pub tags: Option<Vec<String>>,
}

#[verifier::ext_equal]
pub struct PathOptionsView {
    pub method: Option<String>,
    pub path: Option<String>,
    pub tags: Option<Seq<String>>,
}

impl View for PathOptions {
    type V = PathOptionsView;

    open spec fn view(&self) -> PathOptionsView {
        PathOptionsView {
            method: self.method,
            path: self.path,
            tags: match &self.tags {
                Some(v) => Some(v@),
                None => None,
            },
        }
    }
}

/// The options of a `Response(value, { statusCode, description?, example?,
/// namespace? })` call.
#[derive(Clone, Debug)]
pub struct ResponseOptions {
    pub description: Option<String>,
    pub example: Option<String>,
    pub namespace: Option<String>,
    pub status_code: Option<String>,
}

/// No options at all.
pub open spec fn empty_path_options() -> PathOptionsView {
    PathOptionsView { method: None, path: None, tags: None }
}

pub open spec fn empty_response_options() -> ResponseOptions {
    ResponseOptions { description: None, example: None, namespace: None, status_code: None }
}

/// The string value of an option property: the text of a string literal, the
/// raw text of a numeric literal, nothing otherwise.
pub open spec fn spec_prop_value(m: Module, c: int) -> Option<String> {
    if m.kids(c).len() > 0 {
        match m.node(m.kids(c)[0] as int).kind {
            NodeKind::StrLit { value } => Some(value),
            NodeKind::NumLit { raw } => Some(raw),
            _ => None,
        }
    } else {
        None
    }
}

/// The string value of an option property when only string literals count.
pub open spec fn spec_prop_str_value(m: Module, c: int) -> Option<String> {
    if m.kids(c).len() > 0 {
        match m.node(m.kids(c)[0] as int).kind {
            NodeKind::StrLit { value } => Some(value),
            _ => None,
        }
    } else {
        None
    }
}

/// The string elements of an array literal, from position `i` on.
pub open spec fn spec_tag_values(m: Module, node: int, i: int) -> Seq<String>
    decreases m.kids(node).len() - i,
        when m.wf() && 0 <= node < m.count() && 0 <= i
{
    if i >= m.kids(node).len() {
        Seq::empty()
    } else {
        let head: Seq<String> = match m.node(m.kids(node)[i] as int).kind {
            NodeKind::StrLit { value } => seq![value],
            _ => Seq::empty(),
        };
        head + spec_tag_values(m, node, i + 1)
    }
}

/// The tags named by an option value: the string elements of an array
/// literal, nothing otherwise.
pub open spec fn spec_tags_of(m: Module, c: int) -> Seq<String> {
    if m.kids(c).len() > 0 && m.node(m.kids(c)[0] as int).kind is ArrayLit {
        spec_tag_values(m, m.kids(c)[0] as int, 0)
    } else {
        Seq::empty()
    }
}

/// One `key: value` property folded into the accumulated path options.
/// A later occurrence of a key overrides an earlier one, except that an
/// empty or non-array `tags` value leaves the previous tags standing.
pub open spec fn spec_path_options_step(
    m: Module,
    c: int,
    acc: PathOptionsView,
) -> PathOptionsView {
    match m.node(c).kind {
        NodeKind::KeyValueProp { key: Some(k) } => if k@ == "method"@ {
            PathOptionsView { method: spec_prop_str_value(m, c), ..acc }
        } else if k@ == "path"@ {
            PathOptionsView { path: spec_prop_str_value(m, c), ..acc }
        } else if k@ == "tags"@ {
            if spec_tags_of(m, c).len() > 0 {
                PathOptionsView { tags: Some(spec_tags_of(m, c)), ..acc }
            } else {
                acc
            }
        } else {
            acc
        },
        _ => acc,
    }
}

pub open spec fn spec_path_options_fold(
    m: Module,
    node: int,
    i: int,
    acc: PathOptionsView,
) -> PathOptionsView
    decreases m.kids(node).len() - i,
        when m.wf() && 0 <= node < m.count() && 0 <= i
{
    if i >= m.kids(node).len() {
        acc
    } else {
        spec_path_options_fold(
            m,
            node,
            i + 1,
            spec_path_options_step(m, m.kids(node)[i] as int, acc),
        )
    }
}

/// What `Path` options a call argument carries: the folded properties of an
/// object literal, nothing for any other argument shape.
pub open spec fn spec_path_options(m: Module, node: int) -> PathOptionsView {
    if m.node(node).kind is ObjectLit {
        spec_path_options_fold(m, node, 0, empty_path_options())
    } else {
        empty_path_options()
    }
}

/// The string elements of the array literal at `node`, from position `i` on.
fn collect_tag_values(m: &Module, node: usize, i: usize, out: &mut Vec<String>)
    requires
        m.wf(),
        node < m.count(),
        i <= m.kids(node as int).len(),
    ensures
        final(out)@ == old(out)@ + spec_tag_values(*m, node as int, i as int),
    decreases m.kids(node as int).len() - i,
{
    let ghost old_out = out@;
    let n = m.nodes[node].children.len();
    if i >= n {
        proof {
            assert(out@ =~= old_out + spec_tag_values(*m, node as int, i as int));
        }
        return;
    }
    let c = m.nodes[node].children[i];
    match &m.nodes[c].kind {
        NodeKind::StrLit { value } => {
            out.push(value.clone());
        },
        _ => {},
    }
    collect_tag_values(m, node, i + 1, out);
    proof {
        assert(out@ =~= old_out + spec_tag_values(*m, node as int, i as int));
    }
}

/// Read the options object of a `Path` call: `method` and `path` string
/// literals and a `tags` array of string literals. Any other argument shape
/// yields empty options.
pub fn get_path_options(m: &Module, node: usize) -> (r: PathOptions)
    requires
        m.wf(),
        node < m.count(),
    ensures
        r@ == spec_path_options(*m, node as int),
{
    let mut r = PathOptions { method: None, path: None, tags: None };
    match &m.nodes[node].kind {
        NodeKind::ObjectLit => {
            load_options(m, node, &mut r);
        },
        _ => {},
    }
    r
}

/// Fold the properties of the object literal at `node` into `opts`.
fn load_options(m: &Module, node: usize, opts: &mut PathOptions)
    requires
        m.wf(),
        node < m.count(),
    ensures
        final(opts)@ == spec_path_options_fold(*m, node as int, 0, old(opts)@),
{
    let n = m.nodes[node].children.len();
    let mut i: usize = 0;
    while i < n
        invariant
            m.wf(),
            node < m.count(),
            n == m.kids(node as int).len(),
            i <= n,
            spec_path_options_fold(*m, node as int, 0, old(opts)@) == spec_path_options_fold(
                *m,
                node as int,
                i as int,
                opts@,
            ),
        decreases n - i,
    {
        let c = m.nodes[node].children[i];
        let ghost acc0 = opts@;
        match &m.nodes[c].kind {
            NodeKind::KeyValueProp { key: Some(k) } => {
                if str_eq(k, "method") {
                    opts.method = prop_str_value(m, c);
                } else if str_eq(k, "path") {
                    opts.path = prop_str_value(m, c);
                } else if str_eq(k, "tags") {
                    let mut tags: Vec<String> = Vec::new();
                    if m.nodes[c].children.len() > 0 {
                        let v = m.nodes[c].children[0];
                        match &m.nodes[v].kind {
                            NodeKind::ArrayLit => {
                                collect_tag_values(m, v, 0, &mut tags);
                            },
                            _ => {},
                        }
                    }
                    if tags.len() > 0 {
                        opts.tags = Some(tags);
                    }
                }
            },
            _ => {},
        }
        proof {
            assert(opts@ =~= spec_path_options_step(*m, c as int, acc0));
        }
        i = i + 1;
    }
}

/// The string-literal value hanging off the property at `c`, if any.
fn prop_str_value(m: &Module, c: usize) -> (r: Option<String>)
    requires
        m.wf(),
        c < m.count(),
    ensures
        r == spec_prop_str_value(*m, c as int),
{
    if m.nodes[c].children.len() > 0 {
        let v = m.nodes[c].children[0];
        match &m.nodes[v].kind {
            NodeKind::StrLit { value } => Some(value.clone()),
            _ => None,
        }
    } else {
        None
    }
}

/// One `key: value` property folded into the accumulated response options.
pub open spec fn spec_response_options_step(
    m: Module,
    c: int,
    acc: ResponseOptions,
) -> ResponseOptions {
    match m.node(c).kind {
        NodeKind::KeyValueProp { key: Some(k) } => if k@ == "description"@ {
            ResponseOptions { description: spec_prop_value(m, c), ..acc }
        } else if k@ == "example"@ {
            ResponseOptions { example: spec_prop_value(m, c), ..acc }
        } else if k@ == "namespace"@ {
            ResponseOptions { namespace: spec_prop_value(m, c), ..acc }
        } else if k@ == "statusCode"@ {
            ResponseOptions { status_code: spec_prop_value(m, c), ..acc }
        } else {
            acc
        },
        _ => acc,
    }
}

pub open spec fn spec_response_options_fold(
    m: Module,
    node: int,
    i: int,
    acc: ResponseOptions,
) -> ResponseOptions
    decreases m.kids(node).len() - i,
        when m.wf() && 0 <= node < m.count() && 0 <= i
{
    if i >= m.kids(node).len() {
        acc
    } else {
        spec_response_options_fold(
            m,
            node,
            i + 1,
            spec_response_options_step(m, m.kids(node)[i] as int, acc),
        )
    }
}

/// What `Response` options the object literal at `node` carries:
/// `description`, `example` and `namespace` string or numeric literals and
/// the `statusCode` the response is keyed by.
pub open spec fn spec_response_options(m: Module, node: int) -> ResponseOptions {
    spec_response_options_fold(m, node, 0, empty_response_options())
}

/// Read the options object of a `Response` call.
pub fn get_response_options(m: &Module, node: usize) -> (r: ResponseOptions)
    requires
        m.wf(),
        node < m.count(),
    ensures
        r == spec_response_options(*m, node as int),
{
    let mut r = ResponseOptions {
        description: None,
        example: None,
        namespace: None,
        status_code: None,
    };
    let n = m.nodes[node].children.len();
    let mut i: usize = 0;
    while i < n
        invariant
            m.wf(),
            node < m.count(),
            n == m.kids(node as int).len(),
            i <= n,
            spec_response_options_fold(*m, node as int, 0, empty_response_options())
                == spec_response_options_fold(*m, node as int, i as int, r),
        decreases n - i,
    {
        let c = m.nodes[node].children[i];
        let ghost acc0 = r;
        match &m.nodes[c].kind {
            NodeKind::KeyValueProp { key: Some(k) } => {
                if str_eq(k, "description") {
                    r.description = prop_value(m, c);
                } else if str_eq(k, "example") {
                    r.example = prop_value(m, c);
                } else if str_eq(k, "namespace") {
                    r.namespace = prop_value(m, c);
                } else if str_eq(k, "statusCode") {
                    r.status_code = prop_value(m, c);
                }
            },
            _ => {},
        }
        proof {
            assert(r == spec_response_options_step(*m, c as int, acc0));
        }
        i = i + 1;
    }
    r
}

/// The string or numeric literal value hanging off the property at `c`.
fn prop_value(m: &Module, c: usize) -> (r: Option<String>)
    requires
        m.wf(),
        c < m.count(),
    ensures
        r == spec_prop_value(*m, c as int),
{
    if m.nodes[c].children.len() > 0 {
        let v = m.nodes[c].children[0];
        match &m.nodes[v].kind {
            NodeKind::StrLit { value } => Some(value.clone()),
            NodeKind::NumLit { raw } => Some(raw.clone()),
            _ => None,
        }
    } else {
        None
    }
}

/// The parameter name of an endpoint marker: the key of the first enclosing
/// property signature with a plain key, or the name of the first enclosing
/// formal parameter, walking up from `node`.
pub open spec fn spec_parameter_name(m: Module, node: int) -> Option<String>
    decreases node,
        when m.wf() && 0 <= node < m.count()
{
    match m.node(node).kind {
        NodeKind::PropertySignature { key: Some(k) } => Some(k),
        NodeKind::Param { name: Some(n) } => Some(n),
        _ => match m.node(node).parent {
            Some(p) => spec_parameter_name(m, p as int),
            None => None,
        },
    }
}

/// Walk up from `node` to the first property-like ancestor and return its
/// name.
pub fn get_parameter_name(m: &Module, node: usize) -> (r: Option<String>)
    requires
        m.wf(),
        node < m.count(),
    ensures
        r == spec_parameter_name(*m, node as int),
    decreases node,
{
    match &m.nodes[node].kind {
        NodeKind::PropertySignature { key: Some(k) } => Some(k.clone()),
        NodeKind::Param { name: Some(n) } => Some(n.clone()),
        _ => match m.nodes[node].parent {
            Some(p) => get_parameter_name(m, p),
            None => None,
        },
    }
}

/// What the first type argument of a marker asks for.
#[derive(Clone, Debug)]
pub enum PayloadKind {
    /// A primitive schema.
    Prim(DataType),
    /// A reference to the named user type.
    NamedRef(String),
    /// Nothing usable.
    Opaque,
}

/// The decoded positional type arguments of an endpoint marker
/// `Marker<T, Required, Namespace?, Format?>`.
#[derive(Clone, Debug)]
pub struct MarkerDecode {
    pub payload: PayloadKind,
    pub required: Option<bool>,
    pub namespace: Option<String>,
    pub format: Option<String>,
}

/// Position 0: the payload. A `number`/`string`/`boolean` keyword denotes a
/// primitive schema; a plainly-named type reference denotes a user type.
pub open spec fn spec_marker_payload(m: Module, node: int) -> PayloadKind {
    if m.kids(node).len() > 0 {
        match m.node(m.kids(node)[0] as int).kind {
            NodeKind::TsKeywordType { kind } => match kind {
                KeywordKind::Number => PayloadKind::Prim(DataType::Number),
                KeywordKind::Boolean => PayloadKind::Prim(DataType::Boolean),
                KeywordKind::Str => PayloadKind::Prim(DataType::Str),
                _ => PayloadKind::Opaque,
            },
            NodeKind::TsTypeRef { name: Some(n) } => PayloadKind::NamedRef(n),
            _ => PayloadKind::Opaque,
        }
    } else {
        PayloadKind::Opaque
    }
}

/// Position 1: whether the parameter is required, from a boolean literal
/// type.
pub open spec fn spec_marker_required(m: Module, node: int) -> Option<bool> {
    if m.kids(node).len() > 1 {
        match m.node(m.kids(node)[1] as int).kind {
            NodeKind::TsLitType { lit: LitKind::Bool(b) } => Some(b),
            _ => None,
        }
    } else {
        None
    }
}

/// Position 2: the namespace, from a string literal type.
pub open spec fn spec_marker_namespace(m: Module, node: int) -> Option<String> {
    if m.kids(node).len() > 2 {
        match m.node(m.kids(node)[2] as int).kind {
            NodeKind::TsLitType { lit: LitKind::Str(s) } => Some(s),
            _ => None,
        }
    } else {
        None
    }
}

/// Position 3: the schema format, from a string literal type.
pub open spec fn spec_marker_format(m: Module, node: int) -> Option<String> {
    if m.kids(node).len() > 3 {
        match m.node(m.kids(node)[3] as int).kind {
            NodeKind::TsLitType { lit: LitKind::Str(s) } => Some(s),
            _ => None,
        }
    } else {
        None
    }
}

/// Decode the positional type arguments of the marker at `node`.
pub fn decode_marker(m: &Module, node: usize) -> (r: MarkerDecode)
    requires
        m.wf(),
        node < m.count(),
    ensures
        r.payload == spec_marker_payload(*m, node as int),
        r.required == spec_marker_required(*m, node as int),
        r.namespace == spec_marker_namespace(*m, node as int),
        r.format == spec_marker_format(*m, node as int),
{
    let kids = &m.nodes[node].children;
    let payload = if kids.len() > 0 {
        match &m.nodes[kids[0]].kind {
            NodeKind::TsKeywordType { kind } => match kind {
                KeywordKind::Number => PayloadKind::Prim(DataType::Number),
                KeywordKind::Boolean => PayloadKind::Prim(DataType::Boolean),
                KeywordKind::Str => PayloadKind::Prim(DataType::Str),
                _ => PayloadKind::Opaque,
            },
            NodeKind::TsTypeRef { name: Some(n) } => PayloadKind::NamedRef(n.clone()),
            _ => PayloadKind::Opaque,
        }
    } else {
        PayloadKind::Opaque
    };
    let required = if kids.len() > 1 {
        match &m.nodes[kids[1]].kind {
            NodeKind::TsLitType { lit: LitKind::Bool(b) } => Some(*b),
            _ => None,
        }
    } else {
        None
    };
    let namespace = if kids.len() > 2 {
        match &m.nodes[kids[2]].kind {
            NodeKind::TsLitType { lit: LitKind::Str(s) } => Some(s.clone()),
            _ => None,
        }
    } else {
        None
    };
    let format = if kids.len() > 3 {
        match &m.nodes[kids[3]].kind {
            NodeKind::TsLitType { lit: LitKind::Str(s) } => Some(s.clone()),
            _ => None,
        }
    } else {
        None
    };
    MarkerDecode { payload, required, namespace, format }
}

/// Positional decoding: each decoded field of a marker depends on exactly
/// one type-argument position. Two markers that agree on position 1 agree on
/// `required`, however much the other positions differ; likewise position 2
/// alone decides the namespace, position 3 alone the format, and position 0
/// alone the payload. Hence altering only the second type argument flips
/// only `required`, altering only the fourth changes only the format, and
/// altering only the third moves only the namespace.
pub proof fn lemma_marker_positional(m1: Module, node1: int, m2: Module, node2: int)
    ensures
        m1.kids(node1).len() > 1 && m2.kids(node2).len() > 1 && m1.node(
            m1.kids(node1)[1] as int,
        ).kind == m2.node(m2.kids(node2)[1] as int).kind ==> spec_marker_required(m1, node1)
            == spec_marker_required(m2, node2),
        m1.kids(node1).len() > 2 && m2.kids(node2).len() > 2 && m1.node(
            m1.kids(node1)[2] as int,
        ).kind == m2.node(m2.kids(node2)[2] as int).kind ==> spec_marker_namespace(m1, node1)
            == spec_marker_namespace(m2, node2),
        m1.kids(node1).len() > 3 && m2.kids(node2).len() > 3 && m1.node(
            m1.kids(node1)[3] as int,
        ).kind == m2.node(m2.kids(node2)[3] as int).kind ==> spec_marker_format(m1, node1)
            == spec_marker_format(m2, node2),
        m1.kids(node1).len() > 0 && m2.kids(node2).len() > 0 && m1.node(
            m1.kids(node1)[0] as int,
        ).kind == m2.node(m2.kids(node2)[0] as int).kind ==> spec_marker_payload(m1, node1)
            == spec_marker_payload(m2, node2),
{
}

} // verus!
