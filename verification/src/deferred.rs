use vstd::prelude::*;
use crate::declarations::{name_matches, SymbolName};
use crate::schema::OpHandle;

verus! {

/// A pending schema definition: define a schema called `schema_name`
/// (grouped under `namespace` when present) from the declaration exported as
/// `exported_name` from `source_file_name`.
#[derive(Clone, Debug)]
pub struct DeferredType {
    pub source_file_name: String,
    pub schema_name: String,
    pub exported_name: SymbolName,
    pub namespace: Option<String>,
}

/// A pending parameter elaboration: re-run request-parameter extraction for
/// `operation` against the declaration exported as `exported_name` from
/// `source_file_name`.
#[derive(Clone, Debug)]
pub struct DeferredOperationType {
    pub source_file_name: String,
    pub operation: OpHandle,
    pub exported_name: SymbolName,
}

/// The deferred work of a run: a first-in-first-out list of files still to
/// process (`modules`, with `next` marking how far processing has come) and
/// the obligations targeting them. Obligations are deduplicated on insertion
/// and never removed; the file list only grows.
#[derive(Clone, Debug)]
pub struct DeferredSchemas {
    pub modules: Vec<String>,
    pub next: usize,
    pub types: Vec<DeferredType>,
    pub operation_types: Vec<DeferredOperationType>,
}

/// Whether two option strings hold the same characters.
pub open spec fn opt_str_matches(a: Option<String>, b: Option<String>) -> bool {
    match (a, b) {
        (Some(x), Some(y)) => x@ == y@,
        (None, None) => true,
        _ => false,
    }
}

/// Whether two schema obligations are the same obligation.
pub open spec fn dt_matches(a: DeferredType, b: DeferredType) -> bool {
    &&& a.source_file_name@ == b.source_file_name@
    &&& a.schema_name@ == b.schema_name@
    &&& name_matches(a.exported_name, b.exported_name)
    &&& opt_str_matches(a.namespace, b.namespace)
}

/// Whether two parameter obligations are the same obligation.
pub open spec fn dot_matches(a: DeferredOperationType, b: DeferredOperationType) -> bool {
    &&& a.source_file_name@ == b.source_file_name@
    &&& a.operation == b.operation
    &&& name_matches(a.exported_name, b.exported_name)
}

pub open spec fn dt_exists(ts: Seq<DeferredType>, t: DeferredType) -> bool {
    exists|i: int| 0 <= i < ts.len() && dt_matches(#[trigger] ts[i], t)
}

pub open spec fn dot_exists(ts: Seq<DeferredOperationType>, t: DeferredOperationType) -> bool {
    exists|i: int| 0 <= i < ts.len() && dot_matches(#[trigger] ts[i], t)
}

/// Whether `file` is still waiting in the unprocessed part of the file list.
pub open spec fn pending_has(s: DeferredSchemas, file: Seq<char>) -> bool {
    exists|i: int| s.next <= i < s.modules@.len() && (#[trigger] s.modules@[i])@ == file
}

/// How many files are still waiting.
pub open spec fn pending_count(s: DeferredSchemas) -> int {
    s.modules@.len() - s.next
}

pub open spec fn deferred_wf(s: DeferredSchemas) -> bool {
    s.next <= s.modules@.len()
}

impl DeferredType {
    /// An exact copy.
    pub fn dup(&self) -> (r: DeferredType)
        ensures
            r == *self,
    {
        DeferredType {
            source_file_name: self.source_file_name.clone(),
            schema_name: self.schema_name.clone(),
            exported_name: self.exported_name.dup(),
            namespace: match &self.namespace {
                Some(n) => Some(n.clone()),
                None => None,
            },
        }
    }
}

impl DeferredOperationType {
    /// An exact copy.
    pub fn dup(&self) -> (r: DeferredOperationType)
        ensures
            r == *self,
    {
        DeferredOperationType {
            source_file_name: self.source_file_name.clone(),
            operation: self.operation,
            exported_name: self.exported_name.dup(),
        }
    }
}

/// Whether two option strings hold the same characters.
pub fn opt_str_eq(a: &Option<String>, b: &Option<String>) -> (r: bool)
    ensures
        r == opt_str_matches(*a, *b),
{
    match (a, b) {
        (Some(x), Some(y)) => *x == *y,
        (None, None) => true,
        _ => false,
    }
}

impl DeferredSchemas {
    /// An empty queue.
    pub fn new() -> (r: DeferredSchemas)
        ensures
            r.modules@ =~= Seq::<String>::empty(),
            r.next == 0,
            r.types@ =~= Seq::<DeferredType>::empty(),
            r.operation_types@ =~= Seq::<DeferredOperationType>::empty(),
            deferred_wf(r),
    {
        DeferredSchemas { modules: Vec::new(), next: 0, types: Vec::new(), operation_types: Vec::new() }
    }

    /// The next file awaiting processing, advancing the cursor past it.
    pub fn next_module(&mut self) -> (r: Option<String>)
        requires
            deferred_wf(*old(self)),
        ensures
            deferred_wf(*final(self)),
            final(self).types@ == old(self).types@,
            final(self).operation_types@ == old(self).operation_types@,
            final(self).modules@ == old(self).modules@,
            old(self).next < old(self).modules@.len() ==> {
                &&& r == Some(old(self).modules@[old(self).next as int])
                &&& final(self).next == old(self).next + 1
            },
            old(self).next >= old(self).modules@.len() ==> r is None && final(self).next == old(
                self,
            ).next,
    {
        if self.next < self.modules.len() {
            let r = self.modules[self.next].clone();
            self.next = self.next + 1;
            Some(r)
        } else {
            None
        }
    }

    /// Whether `file` is still waiting in the unprocessed part of the list.
    fn is_pending(&self, file: &String) -> (r: bool)
        requires
            deferred_wf(*self),
        ensures
            r == pending_has(*self, file@),
    {
        let mut j: usize = self.next;
        while j < self.modules.len()
            invariant
                self.next <= j <= self.modules@.len(),
                forall|k: int| self.next <= k < j ==> (#[trigger] self.modules@[k])@ != file@,
            decreases self.modules@.len() - j,
        {
            if self.modules[j] == *file {
                return true;
            }
            j = j + 1;
        }
        false
    }

    /// Whether an equal schema obligation was already recorded.
    pub fn has_type(&self, t: &DeferredType) -> (r: bool)
        ensures
            r == dt_exists(self.types@, *t),
    {
        let mut j: usize = 0;
        while j < self.types.len()
            invariant
                j <= self.types@.len(),
                forall|k: int| 0 <= k < j ==> !dt_matches(#[trigger] self.types@[k], *t),
            decreases self.types@.len() - j,
        {
            let c = &self.types[j];
            if c.source_file_name == t.source_file_name && c.schema_name == t.schema_name
                && c.exported_name.matches(&t.exported_name) && opt_str_eq(&c.namespace, &t.namespace) {
                return true;
            }
            j = j + 1;
        }
        false
    }

    /// Whether an equal parameter obligation was already recorded.
    pub fn has_operation_type(&self, t: &DeferredOperationType) -> (r: bool)
        ensures
            r == dot_exists(self.operation_types@, *t),
    {
        let mut j: usize = 0;
        while j < self.operation_types.len()
            invariant
                j <= self.operation_types@.len(),
                forall|k: int| 0 <= k < j ==> !dot_matches(#[trigger] self.operation_types@[k], *t),
            decreases self.operation_types@.len() - j,
        {
            let c = &self.operation_types[j];
            if c.source_file_name == t.source_file_name && c.operation.path_idx == t.operation.path_idx
                && c.operation.op_idx == t.operation.op_idx && c.exported_name.matches(&t.exported_name) {
                return true;
            }
            j = j + 1;
        }
        false
    }

    /// Put `file` on the list unless it is already waiting.
    fn enqueue_module(&mut self, file: &String)
        requires
            deferred_wf(*old(self)),
        ensures
            deferred_wf(*final(self)),
            final(self).types@ == old(self).types@,
            final(self).operation_types@ == old(self).operation_types@,
            final(self).next == old(self).next,
            final(self).modules@ == if pending_has(*old(self), file@) {
                old(self).modules@
            } else {
                old(self).modules@.push(*file)
            },
    {
        if !self.is_pending(file) {
            self.modules.push(file.clone());
        }
    }

    /// Record a schema obligation, unless an equal one is already recorded;
    /// a new obligation puts its target file on the list. Says whether the
    /// obligation was new.
    pub fn add_deferred_type(&mut self, t: DeferredType) -> (added: bool)
        requires
            deferred_wf(*old(self)),
        ensures
            deferred_wf(*final(self)),
            final(self).operation_types@ == old(self).operation_types@,
            final(self).next == old(self).next,
            added == !dt_exists(old(self).types@, t),
            !added ==> final(self).types@ == old(self).types@ && final(self).modules@ == old(self).modules@,
            added ==> {
                &&& final(self).types@ == old(self).types@.push(t)
                &&& final(self).modules@ == if pending_has(*old(self), t.source_file_name@) {
                    old(self).modules@
                } else {
                    old(self).modules@.push(t.source_file_name)
                }
            },
            pending_count(*final(self)) <= pending_count(*old(self)) + 1,
    {
        if self.has_type(&t) {
            return false;
        }
        self.enqueue_module(&t.source_file_name.clone());
        self.types.push(t);
        true
    }

    /// Record a parameter obligation, unless an equal one is already
    /// recorded; a new obligation puts its target file on the list. Says
    /// whether the obligation was new.
    pub fn add_deferred_operation_type(&mut self, t: DeferredOperationType) -> (added: bool)
        requires
            deferred_wf(*old(self)),
        ensures
            deferred_wf(*final(self)),
            final(self).types@ == old(self).types@,
            final(self).next == old(self).next,
            added == !dot_exists(old(self).operation_types@, t),
            !added ==> final(self).operation_types@ == old(self).operation_types@ && final(self).modules@ == old(
                self,
            ).modules@,
            added ==> {
                &&& final(self).operation_types@ == old(self).operation_types@.push(t)
                &&& final(self).modules@ == if pending_has(*old(self), t.source_file_name@) {
                    old(self).modules@
                } else {
                    old(self).modules@.push(t.source_file_name)
                }
            },
            pending_count(*final(self)) <= pending_count(*old(self)) + 1,
    {
        if self.has_operation_type(&t) {
            return false;
        }
        self.enqueue_module(&t.source_file_name.clone());
        self.operation_types.push(t);
        true
    }
}

} // verus!
