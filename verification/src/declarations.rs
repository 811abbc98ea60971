use vstd::prelude::*;

verus! {

/// A binding name in a file's symbol table: either the file's default export
/// or an ordinary identifier.
#[derive(Clone, Debug)]
pub enum SymbolName {
    Default,
    Named(String),
}

/// What a local name stands for.
#[derive(Clone, Debug)]
pub enum Declaration {
    /// A local type declaration; `node` is the arena index of the declaring
    /// node in the owning file's tree.
    Type { node: usize },
    /// A local name that re-points to another local name.
    Alias { from: SymbolName, to: String },
    /// A local name whose definition is `name` inside `source_file_name`
    /// (an absolute path).
    Import { name: SymbolName, source_file_name: String },
    /// A name exported from elsewhere.
    Export { name: SymbolName, source_file_name: String },
}

/// One binding of a scope.
#[derive(Clone, Debug)]
pub struct Entry {
    pub name: SymbolName,
    pub decl: Declaration,
}

/// A per-file stack of scopes; the last scope is the innermost one. A table
/// always carries at least the file's top-level scope.
#[derive(Clone, Debug)]
pub struct SymbolTable {
    pub scopes: Vec<Vec<Entry>>,
}

/// The table of one file, keyed by its absolute path.
#[derive(Clone, Debug)]
pub struct FileTable {
    pub file: String,
    pub table: SymbolTable,
}

/// The symbol tables of every file seen so far.
#[derive(Clone, Debug)]
pub struct DeclarationTables {
    pub tables: Vec<FileTable>,
}

/// Ghost image of one file's entry in `DeclarationTables`.
#[verifier::ext_equal]
pub struct FileTableView {
    pub file: String,
    pub table: Seq<Seq<Entry>>,
}

impl View for SymbolTable {
    type V = Seq<Seq<Entry>>;

    open spec fn view(&self) -> Seq<Seq<Entry>> {
        Seq::new(self.scopes@.len(), |i: int| self.scopes@[i]@)
    }
}

impl View for DeclarationTables {
    type V = Seq<FileTableView>;

    open spec fn view(&self) -> Seq<FileTableView> {
        Seq::new(
            self.tables@.len(),
            |i: int| FileTableView { file: self.tables@[i].file, table: self.tables@[i].table@ },
        )
    }
}

/// How far an alias chain is followed before the walk gives up. Chains this
/// deep do not arise from reasonable sources; the bound makes the fixed-point
/// walk total even on cyclic tables.
pub const ALIAS_CHASE_LIMIT: usize = 64;

/// Whether two binding names denote the same binding.
pub open spec fn name_matches(a: SymbolName, b: SymbolName) -> bool {
    match (a, b) {
        (SymbolName::Default, SymbolName::Default) => true,
        (SymbolName::Named(x), SymbolName::Named(y)) => x@ == y@,
        _ => false,
    }
}

/// Search one scope, newest binding first.
pub open spec fn scope_lookup(scope: Seq<Entry>, name: SymbolName) -> Option<Declaration>
    decreases scope.len(),
{
    if scope.len() == 0 {
        None
    } else if name_matches(scope.last().name, name) {
        Some(scope.last().decl)
    } else {
        scope_lookup(scope.drop_last(), name)
    }
}

/// Search a scope stack, innermost scope first.
pub open spec fn table_lookup(t: Seq<Seq<Entry>>, name: SymbolName) -> Option<Declaration>
    decreases t.len(),
{
    if t.len() == 0 {
        None
    } else {
        match scope_lookup(t.last(), name) {
            Some(d) => Some(d),
            None => table_lookup(t.drop_last(), name),
        }
    }
}

/// Whether the walk stops at `key`: the key is absent or bound to something
/// other than an alias.
pub open spec fn is_terminal(t: Seq<Seq<Entry>>, key: SymbolName) -> bool {
    !(table_lookup(t, key) matches Some(Declaration::Alias { .. }))
}

/// Follow alias bindings from `key` for at most `fuel` steps, returning the
/// key reached.
pub open spec fn chase_key(t: Seq<Seq<Entry>>, key: SymbolName, fuel: nat) -> SymbolName
    decreases fuel,
{
    if fuel == 0 {
        key
    } else {
        match table_lookup(t, key) {
            Some(Declaration::Alias { from: _, to }) => chase_key(
                t,
                SymbolName::Named(to),
                (fuel - 1) as nat,
            ),
            _ => key,
        }
    }
}

/// The first slot holding `file`'s table, if any.
pub open spec fn file_pos(tv: Seq<FileTableView>, file: Seq<char>) -> Option<int>
    decreases tv.len(),
{
    if tv.len() == 0 {
        None
    } else if tv[0].file@ == file {
        Some(0)
    } else {
        match file_pos(tv.skip(1), file) {
            Some(i) => Some(i + 1),
            None => None,
        }
    }
}

pub open spec fn has_file(tv: Seq<FileTableView>, file: Seq<char>) -> bool {
    file_pos(tv, file) is Some
}

pub open spec fn file_idx(tv: Seq<FileTableView>, file: Seq<char>) -> int {
    match file_pos(tv, file) {
        Some(i) => i,
        None => -1,
    }
}

/// The scope stack registered for `file`, or an empty stack.
pub open spec fn table_of(tv: Seq<FileTableView>, file: Seq<char>) -> Seq<Seq<Entry>> {
    if has_file(tv, file) {
        tv[file_idx(tv, file)].table
    } else {
        Seq::empty()
    }
}

/// When a scan finds the first matching slot at `j`, `file_pos` agrees.
proof fn lemma_file_pos_found(tv: Seq<FileTableView>, file: Seq<char>, j: int)
    requires
        0 <= j < tv.len(),
        tv[j].file@ == file,
        forall|k: int| 0 <= k < j ==> (#[trigger] tv[k].file)@ != file,
    ensures
        file_pos(tv, file) == Some(j),
    decreases j,
{
    if j > 0 {
        lemma_file_pos_found(tv.skip(1), file, j - 1);
    }
}

/// When no slot matches, `file_pos` finds nothing.
proof fn lemma_file_pos_none(tv: Seq<FileTableView>, file: Seq<char>)
    requires
        file_pos(tv, file) is None,
    ensures
        forall|k: int| 0 <= k < tv.len() ==> (#[trigger] tv[k].file)@ != file,
    decreases tv.len(),
{
    if tv.len() > 0 {
        lemma_file_pos_none(tv.skip(1), file);
        assert(forall|k: int| 1 <= k < tv.len() ==> tv.skip(1)[k - 1] == tv[k]);
    }
}

proof fn lemma_file_pos_absent(tv: Seq<FileTableView>, file: Seq<char>)
    requires
        forall|k: int| 0 <= k < tv.len() ==> (#[trigger] tv[k].file)@ != file,
    ensures
        file_pos(tv, file) is None,
    decreases tv.len(),
{
    if tv.len() > 0 {
        lemma_file_pos_absent(tv.skip(1), file);
    }
}

/// The key reached by following aliases from `name` in `file`'s table.
pub open spec fn resolved_key(
    tv: Seq<FileTableView>,
    file: Seq<char>,
    name: SymbolName,
) -> SymbolName {
    chase_key(table_of(tv, file), name, ALIAS_CHASE_LIMIT as nat)
}

/// The declaration the walk ends on, when the final key is bound.
pub open spec fn root_decl(
    tv: Seq<FileTableView>,
    file: Seq<char>,
    name: SymbolName,
) -> Option<Declaration> {
    table_lookup(table_of(tv, file), resolved_key(tv, file, name))
}

/// File names are pairwise distinct, and every table keeps at least one scope.
pub open spec fn tables_wf(tv: Seq<FileTableView>) -> bool {
    &&& forall|i: int, j: int|
        #![trigger tv[i].file, tv[j].file]
        0 <= i < tv.len() && 0 <= j < tv.len() && i != j ==> tv[i].file@ != tv[j].file@
    &&& forall|i: int| 0 <= i < tv.len() ==> (#[trigger] tv[i].table).len() >= 1
}

/// Inserting `e` writes it into the innermost scope of `file`'s table,
/// creating the table when the file is new.
pub open spec fn spec_insert(
    tv: Seq<FileTableView>,
    file: String,
    e: Entry,
) -> Seq<FileTableView> {
    if has_file(tv, file@) {
        let i = file_idx(tv, file@);
        let t = tv[i].table;
        tv.update(i, FileTableView { file: tv[i].file, table: t.update(t.len() - 1, t.last().push(e)) })
    } else {
        tv.push(FileTableView { file, table: seq![seq![e]] })
    }
}

/// Opening a child scope pushes an empty scope onto `file`'s stack, creating
/// the table when the file is new.
pub open spec fn spec_add_child_scope(tv: Seq<FileTableView>, file: String) -> Seq<FileTableView> {
    if has_file(tv, file@) {
        let i = file_idx(tv, file@);
        tv.update(i, FileTableView { file: tv[i].file, table: tv[i].table.push(Seq::empty()) })
    } else {
        tv.push(FileTableView { file, table: seq![Seq::empty(), Seq::empty()] })
    }
}

/// Returning to the parent scope drops the innermost scope, never the
/// file's top-level one.
pub open spec fn spec_parent_scope(tv: Seq<FileTableView>, file: Seq<char>) -> Seq<FileTableView> {
    if has_file(tv, file) {
        let i = file_idx(tv, file);
        let t = tv[i].table;
        if t.len() > 1 {
            tv.update(i, FileTableView { file: tv[i].file, table: t.drop_last() })
        } else {
            tv
        }
    } else {
        tv
    }
}

impl SymbolName {
    /// An exact copy.
    pub fn dup(&self) -> (r: SymbolName)
        ensures
            r == *self,
    {
        match self {
            SymbolName::Default => SymbolName::Default,
            SymbolName::Named(s) => SymbolName::Named(s.clone()),
        }
    }

    /// Whether two binding names denote the same binding.
    pub fn matches(&self, other: &SymbolName) -> (r: bool)
        ensures
            r == name_matches(*self, *other),
    {
        match (self, other) {
            (SymbolName::Default, SymbolName::Default) => true,
            (SymbolName::Named(x), SymbolName::Named(y)) => *x == *y,
            _ => false,
        }
    }
}

impl Declaration {
    /// An exact copy.
    pub fn dup(&self) -> (r: Declaration)
        ensures
            r == *self,
    {
        match self {
            Declaration::Type { node } => Declaration::Type { node: *node },
            Declaration::Alias { from, to } => Declaration::Alias {
                from: from.dup(),
                to: to.clone(),
            },
            Declaration::Import { name, source_file_name } => Declaration::Import {
                name: name.dup(),
                source_file_name: source_file_name.clone(),
            },
            Declaration::Export { name, source_file_name } => Declaration::Export {
                name: name.dup(),
                source_file_name: source_file_name.clone(),
            },
        }
    }
}

/// Search one scope, newest binding first.
fn scope_lookup_exec(scope: &Vec<Entry>, name: &SymbolName) -> (r: Option<Declaration>)
    ensures
        r == scope_lookup(scope@, *name),
{
    let mut j: usize = scope.len();
    proof {
        assert(scope@.take(j as int) =~= scope@);
    }
    while j > 0
        invariant
            j <= scope@.len(),
            scope_lookup(scope@, *name) == scope_lookup(scope@.take(j as int), *name),
        decreases j,
    {
        let e = &scope[j - 1];
        proof {
            assert(scope@.take(j as int).last() == scope@[j - 1]);
            assert(scope@.take(j as int).drop_last() =~= scope@.take(j - 1));
        }
        if e.name.matches(name) {
            return Some(e.decl.dup());
        }
        j = j - 1;
    }
    proof {
        assert(scope@.take(0) =~= Seq::<Entry>::empty());
    }
    None
}

impl SymbolTable {
    /// Search the scope stack, innermost scope first.
    pub fn lookup(&self, name: &SymbolName) -> (r: Option<Declaration>)
        ensures
            r == table_lookup(self@, *name),
    {
        let mut j: usize = self.scopes.len();
        proof {
            assert(self@.take(j as int) =~= self@);
        }
        while j > 0
            invariant
                j <= self.scopes@.len(),
                table_lookup(self@, *name) == table_lookup(self@.take(j as int), *name),
            decreases j,
        {
            proof {
                assert(self@.take(j as int).last() == self@[j - 1]);
                assert(self@.take(j as int).drop_last() =~= self@.take(j - 1));
            }
            match scope_lookup_exec(&self.scopes[j - 1], name) {
                Some(d) => {
                    return Some(d);
                },
                None => {},
            }
            j = j - 1;
        }
        proof {
            assert(self@.take(0) =~= Seq::<Seq<Entry>>::empty());
        }
        None
    }
}

impl DeclarationTables {
    /// An empty collection of tables.
    pub fn new() -> (r: DeclarationTables)
        ensures
            r@ =~= Seq::<FileTableView>::empty(),
            tables_wf(r@),
    {
        DeclarationTables { tables: Vec::new() }
    }

    /// The position of `file`'s table.
    fn find_file(&self, file: &String) -> (r: Option<usize>)
        requires
            tables_wf(self@),
        ensures
            r matches Some(i) ==> i < self@.len() && self@[i as int].file@ == file@ && has_file(
                self@,
                file@,
            ) && file_idx(self@, file@) == i as int,
            r is None ==> !has_file(self@, file@),
    {
        let mut j: usize = 0;
        while j < self.tables.len()
            invariant
                j <= self.tables@.len(),
                forall|k: int| 0 <= k < j ==> (#[trigger] self@[k].file)@ != file@,
            decreases self.tables@.len() - j,
        {
            if self.tables[j].file == *file {
                proof {
                    lemma_file_pos_found(self@, file@, j as int);
                }
                return Some(j);
            }
            j = j + 1;
        }
        proof {
            lemma_file_pos_absent(self@, file@);
        }
        None
    }

    /// Write a binding into the innermost scope of `file`'s table, creating
    /// the table when the file is new.
    pub fn insert(&mut self, file: &String, name: SymbolName, decl: Declaration)
        requires
            tables_wf(old(self)@),
        ensures
            final(self)@ == spec_insert(old(self)@, *file, Entry { name, decl }),
            tables_wf(final(self)@),
    {
        let entry = Entry { name, decl };
        match self.find_file(file) {
            Some(i) => {
                let ghost old_tv = self@;
                proof {
                    assert(old_tv[i as int].table.len() >= 1);
                }
                let t = &mut self.tables[i].table;
                let n = t.scopes.len();
                t.scopes[n - 1].push(entry);
                proof {
                    let tgt = spec_insert(old_tv, *file, Entry { name, decl });
                    assert forall|k: int| 0 <= k < self@.len() implies self@[k] == tgt[k] by {
                        if k == i as int {
                            assert(self@[k].table =~= tgt[k].table);
                        }
                    }
                    assert(self@ =~= tgt);
                    assert(forall|k: int|
                        0 <= k < self@.len() ==> (#[trigger] self@[k].file) == old_tv[k].file
                            && (#[trigger] self@[k].table).len() >= 1);
                }
            },
            None => {
                let ghost old_tv = self@;
                let mut scope: Vec<Entry> = Vec::new();
                scope.push(entry);
                let mut scopes: Vec<Vec<Entry>> = Vec::new();
                scopes.push(scope);
                self.tables.push(
                    FileTable { file: file.clone(), table: SymbolTable { scopes } },
                );
                proof {
                    let tgt = spec_insert(old_tv, *file, Entry { name, decl });
                    assert(self@.last().table =~= seq![seq![Entry { name, decl }]]);
                    assert forall|k: int| 0 <= k < self@.len() implies self@[k] == tgt[k] by {
                        if k == old_tv.len() as int {
                            assert(self@[k].table =~= tgt[k].table);
                        }
                    }
                    assert(self@ =~= tgt);
                    lemma_file_pos_none(old_tv, file@);
                    assert(forall|k: int|
                        0 <= k < old_tv.len() ==> (#[trigger] self@[k].file) == old_tv[k].file
                            && (#[trigger] self@[k].table) == old_tv[k].table);
                    assert(self@[old_tv.len() as int].file@ == file@);
                    assert(self@[old_tv.len() as int].table.len() >= 1);
                }
            },
        }
    }

    /// Open a child scope on `file`'s table, creating the table when the file
    /// is new.
    pub fn add_child_scope(&mut self, file: &String)
        requires
            tables_wf(old(self)@),
        ensures
            final(self)@ == spec_add_child_scope(old(self)@, *file),
            tables_wf(final(self)@),
    {
        match self.find_file(file) {
            Some(i) => {
                let ghost old_tv = self@;
                let t = &mut self.tables[i].table;
                t.scopes.push(Vec::new());
                proof {
                    let tgt = spec_add_child_scope(old_tv, *file);
                    assert forall|k: int| 0 <= k < self@.len() implies self@[k] == tgt[k] by {
                        if k == i as int {
                            assert(self@[k].table =~= tgt[k].table);
                        }
                    }
                    assert(self@ =~= tgt);
                    assert(forall|k: int|
                        0 <= k < self@.len() ==> (#[trigger] self@[k].file) == old_tv[k].file
                            && (#[trigger] self@[k].table).len() >= 1);
                }
            },
            None => {
                let ghost old_tv = self@;
                let mut scopes: Vec<Vec<Entry>> = Vec::new();
                scopes.push(Vec::new());
                scopes.push(Vec::new());
                self.tables.push(
                    FileTable { file: file.clone(), table: SymbolTable { scopes } },
                );
                proof {
                    let tgt = spec_add_child_scope(old_tv, *file);
                    assert(self@.last().table =~= seq![Seq::<Entry>::empty(), Seq::<Entry>::empty()]);
                    assert forall|k: int| 0 <= k < self@.len() implies self@[k] == tgt[k] by {
                        if k == old_tv.len() as int {
                            assert(self@[k].table =~= tgt[k].table);
                        }
                    }
                    assert(self@ =~= tgt);
                    lemma_file_pos_none(old_tv, file@);
                    assert(forall|k: int|
                        0 <= k < old_tv.len() ==> (#[trigger] self@[k].file) == old_tv[k].file
                            && (#[trigger] self@[k].table) == old_tv[k].table);
                    assert(self@[old_tv.len() as int].file@ == file@);
                    assert(self@[old_tv.len() as int].table.len() >= 1);
                }
            },
        }
    }

    /// Drop the innermost scope of `file`'s table; the top-level scope stays.
    pub fn parent_scope(&mut self, file: &String)
        requires
            tables_wf(old(self)@),
        ensures
            final(self)@ == spec_parent_scope(old(self)@, file@),
            tables_wf(final(self)@),
    {
        match self.find_file(file) {
            Some(i) => {
                let n = self.tables[i].table.scopes.len();
                if n > 1 {
                    let ghost old_tv = self@;
                    let t = &mut self.tables[i].table;
                    t.scopes.pop();
                    proof {
                        let tgt = spec_parent_scope(old_tv, file@);
                        assert forall|k: int| 0 <= k < self@.len() implies self@[k] == tgt[k] by {
                            if k == i as int {
                                assert(self@[k].table =~= tgt[k].table);
                            }
                        }
                        assert(self@ =~= tgt);
                    }
                }
            },
            None => {},
        }
    }

    /// Look `name` up in `file`'s table, innermost scope first, without
    /// following aliases.
    pub fn get_declaration(&self, file: &String, name: &SymbolName) -> (r: Option<Declaration>)
        requires
            tables_wf(self@),
        ensures
            r == table_lookup(table_of(self@, file@), *name),
    {
        match self.find_file(file) {
            Some(i) => self.tables[i].table.lookup(name),
            None => None,
        }
    }

    /// Follow alias bindings from `name` in `file`'s table and return the
    /// final key: the fixed point of the alias walk, stopped after
    /// `ALIAS_CHASE_LIMIT` steps.
    pub fn find_type_name(&self, name: &SymbolName, file: &String) -> (r: SymbolName)
        requires
            tables_wf(self@),
        ensures
            r == resolved_key(self@, file@, *name),
    {
        let mut key = name.dup();
        let mut fuel: usize = ALIAS_CHASE_LIMIT;
        let ghost t = table_of(self@, file@);
        while fuel > 0
            invariant
                tables_wf(self@),
                t == table_of(self@, file@),
                chase_key(t, key, fuel as nat) == chase_key(t, *name, ALIAS_CHASE_LIMIT as nat),
            decreases fuel,
        {
            match self.get_declaration(file, &key) {
                Some(Declaration::Alias { from: _, to }) => {
                    key = SymbolName::Named(to);
                },
                _ => {
                    return key;
                },
            }
            fuel = fuel - 1;
        }
        key
    }

    /// The declaration the alias walk from `name` ends on, when the final key
    /// is bound: a terminal `Type`, an `Import`/`Export` telling the caller to
    /// go elsewhere, or an undissolved `Alias` when the walk gave up.
    pub fn get_root_declaration(&self, file: &String, name: &SymbolName) -> (r: Option<
        Declaration,
    >)
        requires
            tables_wf(self@),
        ensures
            r == root_decl(self@, file@, *name),
    {
        let key = self.find_type_name(name, file);
        self.get_declaration(file, &key)
    }
}

/// Write each entry of `es` in turn into the innermost scope.
pub open spec fn insert_all(t: Seq<Seq<Entry>>, es: Seq<Entry>) -> Seq<Seq<Entry>>
    decreases es.len(),
{
    if es.len() == 0 {
        t
    } else {
        insert_all(t.update(t.len() - 1, t.last().push(es[0])), es.skip(1))
    }
}

/// Scope hygiene: work done inside a child scope — however many bindings it
/// writes — vanishes when the scope is popped, so a handler-local binding that
/// shadows a top-level name never changes what sibling handlers see.
pub proof fn lemma_scope_hygiene(t: Seq<Seq<Entry>>, es: Seq<Entry>, name: SymbolName)
    requires
        t.len() >= 1,
    ensures
        insert_all(t.push(Seq::empty()), es).drop_last() == t,
        table_lookup(insert_all(t.push(Seq::empty()), es).drop_last(), name) == table_lookup(
            t,
            name,
        ),
    decreases es.len(),
{
    lemma_insert_all_frame(t.push(Seq::empty()), es);
    let r = insert_all(t.push(Seq::empty()), es);
    assert(forall|i: int| 0 <= i < t.len() ==> r[i] == t.push(Seq::empty())[i]);
    assert(r.drop_last() =~= t);
}

/// Inserting entries only changes the innermost scope.
proof fn lemma_insert_all_frame(t: Seq<Seq<Entry>>, es: Seq<Entry>)
    requires
        t.len() >= 1,
    ensures
        insert_all(t, es).len() == t.len(),
        forall|i: int| 0 <= i < t.len() - 1 ==> insert_all(t, es)[i] == t[i],
    decreases es.len(),
{
    if es.len() > 0 {
        let t1 = t.update(t.len() - 1, t.last().push(es[0]));
        assert(insert_all(t, es) == insert_all(t1, es.skip(1)));
        lemma_insert_all_frame(t1, es.skip(1));
        assert forall|i: int| 0 <= i < t.len() - 1 implies insert_all(t, es)[i] == t[i] by {
            assert(insert_all(t1, es.skip(1))[i] == t1[i]);
            assert(t1[i] == t[i]);
        }
    }
}

/// Alias transparency, one hop: when a name is bound to an alias, the walk
/// from the name and the walk from the alias's target settle on keys with
/// the same characters and the same terminal declaration, as long as the
/// target's own walk settles on a terminal within the walk bound. Applying
/// this hop by hop dissolves any alias chain that fits the bound.
pub proof fn lemma_alias_transparent(
    t: Seq<Seq<Entry>>,
    x: String,
    y: String,
    settle: nat,
)
    requires
        table_lookup(t, SymbolName::Named(x)) matches Some(Declaration::Alias { to, .. })
            && to@ == y@,
        settle < ALIAS_CHASE_LIMIT as nat,
        is_terminal(t, chase_key(t, SymbolName::Named(y), settle)),
    ensures
        name_matches(
            chase_key(t, SymbolName::Named(x), ALIAS_CHASE_LIMIT as nat),
            chase_key(t, SymbolName::Named(y), ALIAS_CHASE_LIMIT as nat),
        ),
        table_lookup(t, chase_key(t, SymbolName::Named(x), ALIAS_CHASE_LIMIT as nat))
            == table_lookup(t, chase_key(t, SymbolName::Named(y), ALIAS_CHASE_LIMIT as nat)),
{
    match table_lookup(t, SymbolName::Named(x)) {
        Some(Declaration::Alias { from: _, to }) => {
            assert(chase_key(t, SymbolName::Named(x), ALIAS_CHASE_LIMIT as nat) == chase_key(
                t,
                SymbolName::Named(to),
                (ALIAS_CHASE_LIMIT - 1) as nat,
            ));
            lemma_chase_respects_view(t, to, y, (ALIAS_CHASE_LIMIT - 1) as nat);
            lemma_chase_stable(t, SymbolName::Named(y), settle, (ALIAS_CHASE_LIMIT - 1) as nat);
            lemma_chase_stable(t, SymbolName::Named(y), settle, ALIAS_CHASE_LIMIT as nat);
        },
        _ => {
            assert(false);
        },
    }
}

/// Lookups only see the characters of a name, so chasing from names with
/// equal views reaches keys with equal behavior.
proof fn lemma_chase_respects_view(t: Seq<Seq<Entry>>, a: String, b: String, fuel: nat)
    requires
        a@ == b@,
    ensures
        name_matches(
            chase_key(t, SymbolName::Named(a), fuel),
            chase_key(t, SymbolName::Named(b), fuel),
        ),
        table_lookup(t, chase_key(t, SymbolName::Named(a), fuel)) == table_lookup(
            t,
            chase_key(t, SymbolName::Named(b), fuel),
        ),
    decreases fuel,
{
    lemma_lookup_respects_view(t, a, b);
    if fuel > 0 {
        match table_lookup(t, SymbolName::Named(a)) {
            Some(Declaration::Alias { from: _, to }) => {
                lemma_chase_respects_view(t, to, to, (fuel - 1) as nat);
            },
            _ => {},
        }
    }
}

/// Lookup answers agree on names with equal views.
proof fn lemma_lookup_respects_view(t: Seq<Seq<Entry>>, a: String, b: String)
    requires
        a@ == b@,
    ensures
        table_lookup(t, SymbolName::Named(a)) == table_lookup(t, SymbolName::Named(b)),
    decreases t.len(),
{
    if t.len() > 0 {
        lemma_scope_lookup_respects_view(t.last(), a, b);
        lemma_lookup_respects_view(t.drop_last(), a, b);
    }
}

proof fn lemma_scope_lookup_respects_view(scope: Seq<Entry>, a: String, b: String)
    requires
        a@ == b@,
    ensures
        scope_lookup(scope, SymbolName::Named(a)) == scope_lookup(scope, SymbolName::Named(b)),
    decreases scope.len(),
{
    if scope.len() > 0 {
        lemma_scope_lookup_respects_view(scope.drop_last(), a, b);
    }
}

/// Once the walk settles on a terminal key, more fuel does not move it.
pub proof fn lemma_chase_stable(t: Seq<Seq<Entry>>, key: SymbolName, f1: nat, f2: nat)
    requires
        is_terminal(t, chase_key(t, key, f1)),
        f1 <= f2,
    ensures
        chase_key(t, key, f2) == chase_key(t, key, f1),
    decreases f1,
{
    if f1 == 0 {
        lemma_chase_terminal_fixed(t, key, f2);
    } else {
        match table_lookup(t, key) {
            Some(Declaration::Alias { from: _, to }) => {
                lemma_chase_stable(t, SymbolName::Named(to), (f1 - 1) as nat, (f2 - 1) as nat);
            },
            _ => {},
        }
    }
}

/// Chasing from a terminal key goes nowhere.
proof fn lemma_chase_terminal_fixed(t: Seq<Seq<Entry>>, key: SymbolName, fuel: nat)
    requires
        is_terminal(t, key),
    ensures
        chase_key(t, key, fuel) == key,
    decreases fuel,
{
}

} // verus!
