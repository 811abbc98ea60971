use vstd::prelude::*;

verus! {

/// The primitive or structural type of a schema.
#[derive(Clone, Copy, Debug, PartialEq, Eq, Structural)]
pub enum DataType {
    Number,
    Str,
    Boolean,
    Object,
    Array,
}

/// Where a request parameter lives.
#[derive(Clone, Copy, Debug, PartialEq, Eq, Structural)]
pub enum ParamLocation {
    Query,
    Route,
    Header,
}

/// A schema fragment: a primitive or structural type, an optional format, an
/// optional reference to a component schema (with the namespace the reference
/// points into), named properties and an array item schema.
#[derive(Debug)]
pub struct ApiSchema {
    pub data_type: Option<DataType>,
    pub format: Option<String>,
    pub reference: Option<String>,
    pub namespace: Option<String>,
    pub properties: Vec<Property>,
    pub items: Option<Box<ApiSchema>>,
}

/// One named property of an object schema.
#[derive(Debug)]
pub struct Property {
    pub name: String,
    pub schema: ApiSchema,
}

/// Ghost image of a schema fragment; `items` holds at most one element.
#[verifier::ext_equal]
pub struct SchemaView {
    pub data_type: Option<DataType>,
    pub format: Option<String>,
    pub reference: Option<String>,
    pub namespace: Option<String>,
    pub properties: Seq<PropertyView>,
    pub items: Seq<SchemaView>,
}

#[verifier::ext_equal]
pub struct PropertyView {
    pub name: String,
    pub schema: SchemaView,
}

/// The ghost image of a schema value.
pub open spec fn schema_view(s: ApiSchema) -> SchemaView
    decreases s,
{
    SchemaView {
        data_type: s.data_type,
        format: s.format,
        reference: s.reference,
        namespace: s.namespace,
        properties: props_view(s.properties@),
        items: match s.items {
            Some(b) => seq![schema_view(*b)],
            None => Seq::empty(),
        },
    }
}

/// The ghost image of a property list.
pub open spec fn props_view(ps: Seq<Property>) -> Seq<PropertyView>
    decreases ps,
{
    if ps.len() == 0 {
        Seq::empty()
    } else {
        props_view(ps.drop_last()).push(
            PropertyView { name: ps.last().name, schema: schema_view(ps.last().schema) },
        )
    }
}

/// Pointwise reading of `props_view`.
pub broadcast proof fn lemma_props_view(ps: Seq<Property>)
    ensures
        (#[trigger] props_view(ps)).len() == ps.len(),
        forall|i: int|
            0 <= i < ps.len() ==> #[trigger] props_view(ps)[i] == (PropertyView {
                name: ps[i].name,
                schema: schema_view(ps[i].schema),
            }),
    decreases ps,
{
    if ps.len() > 0 {
        lemma_props_view(ps.drop_last());
        assert(forall|i: int| 0 <= i < ps.len() - 1 ==> ps.drop_last()[i] == ps[i]);
    }
}

impl View for ApiSchema {
    type V = SchemaView;

    open spec fn view(&self) -> SchemaView {
        schema_view(*self)
    }
}

/// The schema with nothing said of it.
pub open spec fn empty_schema() -> SchemaView {
    SchemaView {
        data_type: None,
        format: None,
        reference: None,
        namespace: None,
        properties: Seq::empty(),
        items: Seq::empty(),
    }
}

/// A schema carrying only a primitive or structural type.
pub open spec fn typed_schema(t: DataType) -> SchemaView {
    SchemaView { data_type: Some(t), ..empty_schema() }
}

impl ApiSchema {
    /// The schema with nothing said of it.
    pub fn new() -> (r: ApiSchema)
        ensures
            r@ == empty_schema(),
    {
        let r = ApiSchema {
            data_type: None,
            format: None,
            reference: None,
            namespace: None,
            properties: Vec::new(),
            items: None,
        };
        proof {
            assert(r.properties@ =~= Seq::<Property>::empty());
            lemma_props_view(r.properties@);
            assert(r@.properties =~= Seq::<PropertyView>::empty());
            assert(r@.items =~= Seq::<SchemaView>::empty());
            assert(r@ =~= empty_schema());
        }
        r
    }

    /// Set the property `name` to `value`: overwritten in place when the
    /// name is present, appended otherwise. Nothing else changes.
    pub fn set_property(&mut self, name: &String, value: ApiSchema)
        ensures
            final(self)@ == spec_set_property(old(self)@, *name, value@),
    {
        let ghost old_props = old(self)@.properties;
        proof {
            lemma_props_view(self.properties@);
        }
        match find_prop(&self.properties, name) {
            Some(j) => {
                let nm = self.properties[j].name.clone();
                self.properties.set(j, Property { name: nm, schema: value });
                proof {
                    lemma_props_view(self.properties@);
                    assert(self@.properties =~~= old_props.update(
                        j as int,
                        PropertyView { name: old_props[j as int].name, schema: value@ },
                    ));
                    assert(self@ =~~= spec_set_property(old(self)@, *name, value@));
                }
            },
            None => {
                self.properties.push(Property { name: name.clone(), schema: value });
                proof {
                    lemma_props_view(self.properties@);
                    assert(self@.properties =~~= old_props.push(
                        PropertyView { name: *name, schema: value@ },
                    ));
                    assert(self@ =~~= spec_set_property(old(self)@, *name, value@));
                }
            },
        }
    }
}

/// The position of the property named `name`, as `prop_pos` counts it.
fn find_prop(props: &Vec<Property>, name: &String) -> (r: Option<usize>)
    ensures
        r matches Some(j) ==> j < props@.len() && prop_pos(props_view(props@), name@) == Some(
            j as int,
        ) && props@[j as int].name@ == name@,
        r is None ==> prop_pos(props_view(props@), name@) is None,
{
    proof {
        lemma_props_view(props@);
    }
    let mut j: usize = 0;
    while j < props.len()
        invariant
            j <= props@.len(),
            forall|k: int| 0 <= k < j ==> (#[trigger] props@[k].name)@ != name@,
        decreases props@.len() - j,
    {
        if props[j].name == *name {
            proof {
                lemma_props_view(props@);
                assert(forall|k: int|
                    0 <= k < j ==> (#[trigger] props_view(props@)[k].name)@ != name@);
                lemma_prop_pos_found(props_view(props@), name@, j as int);
            }
            return Some(j);
        }
        j = j + 1;
    }
    proof {
        lemma_props_view(props@);
        assert(forall|k: int|
            0 <= k < props_view(props@).len() ==> (#[trigger] props_view(props@)[k].name)@
                != name@);
        lemma_prop_pos_absent(props_view(props@), name@);
    }
    None
}

/// A response registered on an operation.
#[derive(Clone, Debug)]
pub struct ApiResponse {
    pub status_code: String,
    pub description: Option<String>,
    pub example: Option<String>,
    pub schema_ref: Option<String>,
    pub namespace: Option<String>,
}

/// A request parameter (or request body, when `name` and `location` are
/// absent) of an operation.
#[derive(Debug)]
pub struct ApiParam {
    pub name: Option<String>,
    pub location: Option<ParamLocation>,
    pub required: Option<bool>,
    pub schema: ApiSchema,
}

#[verifier::ext_equal]
pub struct ParamView {
    pub name: Option<String>,
    pub location: Option<ParamLocation>,
    pub required: Option<bool>,
    pub schema: SchemaView,
}

impl View for ApiParam {
    type V = ParamView;

    open spec fn view(&self) -> ParamView {
        ParamView {
            name: self.name,
            location: self.location,
            required: self.required,
            schema: self.schema@,
        }
    }
}

/// One operation of a path: its tags, parameters, request body and responses,
/// each list in insertion order.
#[derive(Debug)]
pub struct ApiPathOperation {
    pub method: String,
    pub tags: Option<Vec<String>>,
    pub parameters: Vec<ApiParam>,
    pub body: Option<ApiParam>,
    pub responses: Vec<ApiResponse>,
}

#[verifier::ext_equal]
pub struct OperationView {
    pub method: String,
    pub tags: Option<Seq<String>>,
    pub parameters: Seq<ParamView>,
    pub body: Option<ParamView>,
    pub responses: Seq<ApiResponse>,
}

impl View for ApiPathOperation {
    type V = OperationView;

    open spec fn view(&self) -> OperationView {
        OperationView {
            method: self.method,
            tags: match &self.tags {
                Some(v) => Some(v@),
                None => None,
            },
            parameters: Seq::new(self.parameters@.len(), |i: int| self.parameters@[i]@),
            body: match &self.body {
                Some(p) => Some(p@),
                None => None,
            },
            responses: self.responses@,
        }
    }
}

/// One route pattern and its operations, keyed by method, in insertion order.
#[derive(Debug)]
pub struct ApiPath {
    pub pattern: String,
    pub operations: Vec<ApiPathOperation>,
}

#[verifier::ext_equal]
pub struct PathView {
    pub pattern: String,
    pub operations: Seq<OperationView>,
}

impl View for ApiPath {
    type V = PathView;

    open spec fn view(&self) -> PathView {
        PathView {
            pattern: self.pattern,
            operations: Seq::new(self.operations@.len(), |i: int| self.operations@[i]@),
        }
    }
}

/// One component schema, keyed by name.
#[derive(Debug)]
pub struct ComponentSchema {
    pub name: String,
    pub schema: ApiSchema,
}

#[verifier::ext_equal]
pub struct ComponentView {
    pub name: String,
    pub schema: SchemaView,
}

impl View for ComponentSchema {
    type V = ComponentView;

    open spec fn view(&self) -> ComponentView {
        ComponentView { name: self.name, schema: self.schema@ }
    }
}

/// The document under construction: paths and component schemas, each in
/// insertion order.
#[derive(Debug)]
pub struct OpenApi {
    pub paths: Vec<ApiPath>,
    pub components: Vec<ComponentSchema>,
}

#[verifier::ext_equal]
pub struct OpenApiView {
    pub paths: Seq<PathView>,
    pub components: Seq<ComponentView>,
}

impl View for OpenApi {
    type V = OpenApiView;

    open spec fn view(&self) -> OpenApiView {
        OpenApiView {
            paths: Seq::new(self.paths@.len(), |i: int| self.paths@[i]@),
            components: Seq::new(self.components@.len(), |i: int| self.components@[i]@),
        }
    }
}

/// A stable handle to one operation of the document.
#[derive(Clone, Copy, Debug, PartialEq, Eq, Structural)]
pub struct OpHandle {
    pub path_idx: usize,
    pub op_idx: usize,
}

/// Whether `h` addresses an operation of `d`.
pub open spec fn op_in_bounds(d: OpenApiView, h: OpHandle) -> bool {
    h.path_idx < d.paths.len() && h.op_idx < d.paths[h.path_idx as int].operations.len()
}

/// The operation `h` addresses.
pub open spec fn op_at(d: OpenApiView, h: OpHandle) -> OperationView {
    d.paths[h.path_idx as int].operations[h.op_idx as int]
}

/// The first path slot whose pattern matches, if any.
pub open spec fn path_pos(ps: Seq<PathView>, pattern: Seq<char>) -> Option<int>
    decreases ps.len(),
{
    if ps.len() == 0 {
        None
    } else if ps[0].pattern@ == pattern {
        Some(0)
    } else {
        match path_pos(ps.skip(1), pattern) {
            Some(i) => Some(i + 1),
            None => None,
        }
    }
}

/// The first operation slot of a path whose method matches, if any.
pub open spec fn op_pos(ops: Seq<OperationView>, method: Seq<char>) -> Option<int>
    decreases ops.len(),
{
    if ops.len() == 0 {
        None
    } else if ops[0].method@ == method {
        Some(0)
    } else {
        match op_pos(ops.skip(1), method) {
            Some(i) => Some(i + 1),
            None => None,
        }
    }
}

/// The first component slot whose name matches, if any.
pub open spec fn component_pos(cs: Seq<ComponentView>, name: Seq<char>) -> Option<int>
    decreases cs.len(),
{
    if cs.len() == 0 {
        None
    } else if cs[0].name@ == name {
        Some(0)
    } else {
        match component_pos(cs.skip(1), name) {
            Some(i) => Some(i + 1),
            None => None,
        }
    }
}

/// The document after `path(pattern)`: unchanged when the pattern is present,
/// extended by an empty path slot otherwise.
pub open spec fn spec_path(d: OpenApiView, pattern: String) -> (OpenApiView, int) {
    match path_pos(d.paths, pattern@) {
        Some(i) => (d, i),
        None => (
            OpenApiView {
                paths: d.paths.push(PathView { pattern, operations: Seq::empty() }),
                components: d.components,
            },
            d.paths.len() as int,
        ),
    }
}

/// An operation with nothing on it yet.
pub open spec fn fresh_op(method: String) -> OperationView {
    OperationView {
        method,
        tags: None,
        parameters: Seq::empty(),
        body: None,
        responses: Seq::empty(),
    }
}

/// The document after `add_operation(path_idx, method)`: unchanged when the
/// method is present on that path, extended by a fresh operation otherwise.
pub open spec fn spec_add_operation(d: OpenApiView, path_idx: int, method: String) -> (
    OpenApiView,
    int,
) {
    let ops = d.paths[path_idx].operations;
    match op_pos(ops, method@) {
        Some(i) => (d, i),
        None => (
            OpenApiView {
                paths: d.paths.update(
                    path_idx,
                    PathView { pattern: d.paths[path_idx].pattern, operations: ops.push(fresh_op(method)) },
                ),
                components: d.components,
            },
            ops.len() as int,
        ),
    }
}

/// The document with the operation at `h` replaced by `op`.
pub open spec fn spec_set_op(d: OpenApiView, h: OpHandle, op: OperationView) -> OpenApiView {
    OpenApiView {
        paths: d.paths.update(
            h.path_idx as int,
            PathView {
                pattern: d.paths[h.path_idx as int].pattern,
                operations: d.paths[h.path_idx as int].operations.update(h.op_idx as int, op),
            },
        ),
        components: d.components,
    }
}

/// The document after `component_index(name)`: unchanged when the name is
/// present, extended by an empty schema otherwise.
pub open spec fn spec_component_index(d: OpenApiView, name: String) -> (OpenApiView, int) {
    match component_pos(d.components, name@) {
        Some(i) => (d, i),
        None => (
            OpenApiView {
                paths: d.paths,
                components: d.components.push(ComponentView { name, schema: empty_schema() }),
            },
            d.components.len() as int,
        ),
    }
}

/// `s` with the property `name` set to `value`: overwritten in place when the
/// name is present, appended otherwise.
pub open spec fn prop_pos(ps: Seq<PropertyView>, name: Seq<char>) -> Option<int>
    decreases ps.len(),
{
    if ps.len() == 0 {
        None
    } else if ps[0].name@ == name {
        Some(0)
    } else {
        match prop_pos(ps.skip(1), name) {
            Some(i) => Some(i + 1),
            None => None,
        }
    }
}

pub open spec fn spec_set_property(s: SchemaView, name: String, value: SchemaView) -> SchemaView {
    match prop_pos(s.properties, name@) {
        Some(i) => SchemaView {
            properties: s.properties.update(i, PropertyView { name: s.properties[i].name, schema: value }),
            ..s
        },
        None => SchemaView { properties: s.properties.push(PropertyView { name, schema: value }), ..s },
    }
}

impl OpenApi {
    /// An empty document.
    pub fn new() -> (r: OpenApi)
        ensures
            r@.paths =~= Seq::<PathView>::empty(),
            r@.components =~= Seq::<ComponentView>::empty(),
    {
        OpenApi { paths: Vec::new(), components: Vec::new() }
    }

    /// Create or get the path slot for `pattern`; returns its index.
    pub fn path(&mut self, pattern: &String) -> (r: usize)
        ensures
            (final(self)@, r as int) == spec_path(old(self)@, *pattern),
            r < final(self).paths@.len(),
            final(self)@.components == old(self)@.components,
    {
        let ghost target = spec_path(self@, *pattern);
        let mut j: usize = 0;
        while j < self.paths.len()
            invariant
                j <= self.paths@.len(),
                forall|k: int| 0 <= k < j ==> (#[trigger] self@.paths[k].pattern)@ != pattern@,
        decreases self.paths@.len() - j,
        {
            if self.paths[j].pattern == *pattern {
                proof {
                    lemma_path_pos_found(self@.paths, pattern@, j as int);
                }
                return j;
            }
            j = j + 1;
        }
        proof {
            lemma_path_pos_absent(self@.paths, pattern@);
        }
        let r = self.paths.len();
        self.paths.push(ApiPath { pattern: pattern.clone(), operations: Vec::new() });
        proof {
            assert(self@.paths[r as int].operations =~= Seq::<OperationView>::empty());
            assert(self@.paths[r as int] =~~= (PathView { pattern: *pattern, operations: Seq::empty() }));
            assert(self@.paths =~~= target.0.paths);
            assert(self@.components =~~= target.0.components);
        }
        r
    }

    /// Create or get the operation for `method` on the path at `path_idx`;
    /// returns a handle to it.
    pub fn add_operation(&mut self, path_idx: usize, method: &String) -> (h: OpHandle)
        requires
            path_idx < old(self)@.paths.len(),
        ensures
            h.path_idx == path_idx,
            (final(self)@, h.op_idx as int) == spec_add_operation(
                old(self)@,
                path_idx as int,
                *method,
            ),
            op_in_bounds(final(self)@, h),
            final(self)@.components == old(self)@.components,
    {
        let ghost target = spec_add_operation(self@, path_idx as int, *method);
        let ops_len = self.paths[path_idx].operations.len();
        let mut j: usize = 0;
        while j < ops_len
            invariant
                path_idx < self.paths@.len(),
                ops_len == self@.paths[path_idx as int].operations.len(),
                j <= ops_len,
                forall|k: int|
                    0 <= k < j ==> (#[trigger] self@.paths[path_idx as int].operations[k].method)@
                        != method@,
            decreases ops_len - j,
        {
            if self.paths[path_idx].operations[j].method == *method {
                proof {
                    lemma_op_pos_found(self@.paths[path_idx as int].operations, method@, j as int);
                }
                return OpHandle { path_idx, op_idx: j };
            }
            j = j + 1;
        }
        proof {
            lemma_op_pos_absent(self@.paths[path_idx as int].operations, method@);
        }
        let op = ApiPathOperation {
            method: method.clone(),
            tags: None,
            parameters: Vec::new(),
            body: None,
            responses: Vec::new(),
        };
        let p = &mut self.paths[path_idx];
        let r = p.operations.len();
        p.operations.push(op);
        proof {
            assert(self@.paths[path_idx as int].operations[r as int] =~~= fresh_op(*method));
            assert(self@.paths =~~= target.0.paths);
            assert(self@.components =~~= target.0.components);
        }
        OpHandle { path_idx, op_idx: r }
    }

    /// Set the tags of the operation at `h`.
    pub fn set_tags(&mut self, h: OpHandle, tags: Option<Vec<String>>)
        requires
            op_in_bounds(old(self)@, h),
        ensures
            final(self)@ == spec_set_op(
                old(self)@,
                h,
                OperationView {
                    tags: match tags {
                        Some(v) => Some(v@),
                        None => None,
                    },
                    ..op_at(old(self)@, h)
                },
            ),
    {
        let ghost target = spec_set_op(
            self@,
            h,
            OperationView {
                tags: match &tags {
                    Some(v) => Some(v@),
                    None => None,
                },
                ..op_at(self@, h)
            },
        );
        let p = &mut self.paths[h.path_idx];
        let o = &mut p.operations[h.op_idx];
        o.tags = tags;
        proof {
            assert(self@.paths[h.path_idx as int].operations =~~= target.paths[h.path_idx as int].operations);
            assert(self@.paths =~~= target.paths);
            assert(self@.components =~~= target.components);
        }
    }

    /// Append a parameter to the operation at `h`.
    pub fn push_param(&mut self, h: OpHandle, param: ApiParam)
        requires
            op_in_bounds(old(self)@, h),
        ensures
            final(self)@ == spec_set_op(
                old(self)@,
                h,
                OperationView {
                    parameters: op_at(old(self)@, h).parameters.push(param@),
                    ..op_at(old(self)@, h)
                },
            ),
    {
        let ghost target = spec_set_op(
            self@,
            h,
            OperationView {
                parameters: op_at(self@, h).parameters.push(param@),
                ..op_at(self@, h)
            },
        );
        let p = &mut self.paths[h.path_idx];
        let o = &mut p.operations[h.op_idx];
        o.parameters.push(param);
        proof {
            assert(self@.paths[h.path_idx as int].operations[h.op_idx as int].parameters
                =~~= target.paths[h.path_idx as int].operations[h.op_idx as int].parameters);
            assert(self@.paths[h.path_idx as int].operations =~~= target.paths[h.path_idx as int].operations);
            assert(self@.paths =~~= target.paths);
            assert(self@.components =~~= target.components);
        }
    }

    /// Set the request body of the operation at `h`.
    pub fn set_body(&mut self, h: OpHandle, param: ApiParam)
        requires
            op_in_bounds(old(self)@, h),
        ensures
            final(self)@ == spec_set_op(
                old(self)@,
                h,
                OperationView { body: Some(param@), ..op_at(old(self)@, h) },
            ),
    {
        let ghost target = spec_set_op(
            self@,
            h,
            OperationView { body: Some(param@), ..op_at(self@, h) },
        );
        let p = &mut self.paths[h.path_idx];
        let o = &mut p.operations[h.op_idx];
        o.body = Some(param);
        proof {
            assert(self@.paths[h.path_idx as int].operations =~~= target.paths[h.path_idx as int].operations);
            assert(self@.paths =~~= target.paths);
            assert(self@.components =~~= target.components);
        }
    }

    /// Append a response to the operation at `h`.
    pub fn push_response(&mut self, h: OpHandle, resp: ApiResponse)
        requires
            op_in_bounds(old(self)@, h),
        ensures
            final(self)@ == spec_set_op(
                old(self)@,
                h,
                OperationView {
                    responses: op_at(old(self)@, h).responses.push(resp),
                    ..op_at(old(self)@, h)
                },
            ),
    {
        let ghost target = spec_set_op(
            self@,
            h,
            OperationView { responses: op_at(self@, h).responses.push(resp), ..op_at(self@, h) },
        );
        let p = &mut self.paths[h.path_idx];
        let o = &mut p.operations[h.op_idx];
        o.responses.push(resp);
        proof {
            assert(self@.paths[h.path_idx as int].operations =~~= target.paths[h.path_idx as int].operations);
            assert(self@.paths =~~= target.paths);
            assert(self@.components =~~= target.components);
        }
    }

    /// Create or get the component slot named `name`; returns its index.
    pub fn component_index(&mut self, name: &String) -> (r: usize)
        ensures
            (final(self)@, r as int) == spec_component_index(old(self)@, *name),
            r < final(self).components@.len(),
            final(self)@.paths == old(self)@.paths,
    {
        let ghost target = spec_component_index(self@, *name);
        let mut j: usize = 0;
        while j < self.components.len()
            invariant
                j <= self.components@.len(),
                forall|k: int| 0 <= k < j ==> (#[trigger] self@.components[k].name)@ != name@,
            decreases self.components@.len() - j,
        {
            if self.components[j].name == *name {
                proof {
                    lemma_component_pos_found(self@.components, name@, j as int);
                }
                return j;
            }
            j = j + 1;
        }
        proof {
            lemma_component_pos_absent(self@.components, name@);
        }
        let r = self.components.len();
        self.components.push(ComponentSchema { name: name.clone(), schema: ApiSchema::new() });
        proof {
            assert(self@.components =~~= target.0.components);
            assert(self@.paths =~~= target.0.paths);
        }
        r
    }

    /// Replace the schema of the component at `idx`.
    pub fn set_component_schema(&mut self, idx: usize, schema: ApiSchema)
        requires
            idx < old(self)@.components.len(),
        ensures
            final(self)@.paths == old(self)@.paths,
            final(self)@.components == old(self)@.components.update(
                idx as int,
                ComponentView { name: old(self)@.components[idx as int].name, schema: schema@ },
            ),
    {
        let ghost target = self@.components.update(
            idx as int,
            ComponentView { name: self@.components[idx as int].name, schema: schema@ },
        );
        self.components[idx].schema = schema;
        proof {
            assert(self@.components =~~= target);
            assert(self@.paths =~~= old(self)@.paths);
        }
    }

    /// On the component at `idx`: mark it an object schema and set its
    /// property `name` to `schema`. This is how a namespaced schema is
    /// placed under its grouping schema.
    pub fn set_component_property(&mut self, idx: usize, name: &String, schema: ApiSchema)
        requires
            idx < old(self)@.components.len(),
        ensures
            final(self)@.paths == old(self)@.paths,
            final(self)@.components == old(self)@.components.update(
                idx as int,
                ComponentView {
                    name: old(self)@.components[idx as int].name,
                    schema: SchemaView {
                        data_type: Some(DataType::Object),
                        ..spec_set_property(
                            old(self)@.components[idx as int].schema,
                            *name,
                            schema@,
                        )
                    },
                },
            ),
    {
        let ghost old_schema = self@.components[idx as int].schema;
        let c = &mut self.components[idx];
        c.schema.data_type = Some(DataType::Object);
        c.schema.set_property(name, schema);
        proof {
            assert(spec_set_property(old_schema, *name, schema@).properties =~~= self@.components[
                idx as int
            ].schema.properties);
            assert(self@.components[idx as int].schema =~~= (SchemaView {
                data_type: Some(DataType::Object),
                ..spec_set_property(old_schema, *name, schema@)
            }));
            assert(self@.components =~~= old(self)@.components.update(
                idx as int,
                ComponentView {
                    name: old(self)@.components[idx as int].name,
                    schema: SchemaView {
                        data_type: Some(DataType::Object),
                        ..spec_set_property(old_schema, *name, schema@)
                    },
                },
            ));
            assert(self@.paths =~~= old(self)@.paths);
        }
    }
}

/// When the scan finds the first match at `j`, the position function agrees.
proof fn lemma_path_pos_found(ps: Seq<PathView>, pattern: Seq<char>, j: int)
    requires
        0 <= j < ps.len(),
        ps[j].pattern@ == pattern,
        forall|k: int| 0 <= k < j ==> (#[trigger] ps[k].pattern)@ != pattern,
    ensures
        path_pos(ps, pattern) == Some(j),
    decreases j,
{
    if j > 0 {
        lemma_path_pos_found(ps.skip(1), pattern, j - 1);
    }
}

proof fn lemma_path_pos_absent(ps: Seq<PathView>, pattern: Seq<char>)
    requires
        forall|k: int| 0 <= k < ps.len() ==> (#[trigger] ps[k].pattern)@ != pattern,
    ensures
        path_pos(ps, pattern) is None,
    decreases ps.len(),
{
    if ps.len() > 0 {
        lemma_path_pos_absent(ps.skip(1), pattern);
    }
}

proof fn lemma_op_pos_found(ops: Seq<OperationView>, method: Seq<char>, j: int)
    requires
        0 <= j < ops.len(),
        ops[j].method@ == method,
        forall|k: int| 0 <= k < j ==> (#[trigger] ops[k].method)@ != method,
    ensures
        op_pos(ops, method) == Some(j),
    decreases j,
{
    if j > 0 {
        lemma_op_pos_found(ops.skip(1), method, j - 1);
    }
}

proof fn lemma_op_pos_absent(ops: Seq<OperationView>, method: Seq<char>)
    requires
        forall|k: int| 0 <= k < ops.len() ==> (#[trigger] ops[k].method)@ != method,
    ensures
        op_pos(ops, method) is None,
    decreases ops.len(),
{
    if ops.len() > 0 {
        lemma_op_pos_absent(ops.skip(1), method);
    }
}

proof fn lemma_component_pos_found(cs: Seq<ComponentView>, name: Seq<char>, j: int)
    requires
        0 <= j < cs.len(),
        cs[j].name@ == name,
        forall|k: int| 0 <= k < j ==> (#[trigger] cs[k].name)@ != name,
    ensures
        component_pos(cs, name) == Some(j),
    decreases j,
{
    if j > 0 {
        lemma_component_pos_found(cs.skip(1), name, j - 1);
    }
}

proof fn lemma_component_pos_absent(cs: Seq<ComponentView>, name: Seq<char>)
    requires
        forall|k: int| 0 <= k < cs.len() ==> (#[trigger] cs[k].name)@ != name,
    ensures
        component_pos(cs, name) is None,
    decreases cs.len(),
{
    if cs.len() > 0 {
        lemma_component_pos_absent(cs.skip(1), name);
    }
}

proof fn lemma_prop_pos_found(ps: Seq<PropertyView>, name: Seq<char>, j: int)
    requires
        0 <= j < ps.len(),
        ps[j].name@ == name,
        forall|k: int| 0 <= k < j ==> (#[trigger] ps[k].name)@ != name,
    ensures
        prop_pos(ps, name) == Some(j),
    decreases j,
{
    if j > 0 {
        lemma_prop_pos_found(ps.skip(1), name, j - 1);
    }
}

proof fn lemma_prop_pos_absent(ps: Seq<PropertyView>, name: Seq<char>)
    requires
        forall|k: int| 0 <= k < ps.len() ==> (#[trigger] ps[k].name)@ != name,
    ensures
        prop_pos(ps, name) is None,
    decreases ps.len(),
{
    if ps.len() > 0 {
        lemma_prop_pos_absent(ps.skip(1), name);
    }
}

/// A found component slot carries the searched name.
pub proof fn lemma_component_pos_name(cs: Seq<ComponentView>, name: Seq<char>)
    ensures
        component_pos(cs, name) matches Some(i) ==> 0 <= i < cs.len() && cs[i].name@ == name,
    decreases cs.len(),
{
    if cs.len() > 0 && !(cs[0].name@ == name) {
        lemma_component_pos_name(cs.skip(1), name);
    }
}

} // verus!
