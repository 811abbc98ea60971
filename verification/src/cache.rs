use vstd::prelude::*;
use crate::ast::Module;

verus! {

/// One parsed file.
#[derive(Debug)]
pub struct CachedModule {
    pub path: String,
    pub module: Module,
}

/// The parsed trees of a run, keyed by absolute path. Parsing source text is
/// an outside collaborator's job: the cache is handed in already filled, and
/// a path it does not hold surfaces as a parse failure to the engine.
#[derive(Debug)]
pub struct ModuleCache {
    pub entries: Vec<CachedModule>,
}

/// The first slot holding `path`, if any.
pub open spec fn cache_pos(cs: Seq<CachedModule>, path: Seq<char>) -> Option<int>
    decreases cs.len(),
{
    if cs.len() == 0 {
        None
    } else if cs[0].path@ == path {
        Some(0)
    } else {
        match cache_pos(cs.skip(1), path) {
            Some(i) => Some(i + 1),
            None => None,
        }
    }
}

/// The parsed tree registered for `path`, if any.
pub open spec fn spec_parse(cs: Seq<CachedModule>, path: Seq<char>) -> Option<Module> {
    match cache_pos(cs, path) {
        Some(i) => Some(cs[i].module),
        None => None,
    }
}

/// Every tree in the cache is well-formed.
pub open spec fn cache_wf(c: ModuleCache) -> bool {
    forall|i: int| 0 <= i < c.entries@.len() ==> (#[trigger] c.entries@[i].module).wf()
}

proof fn lemma_cache_pos_found(cs: Seq<CachedModule>, path: Seq<char>, j: int)
    requires
        0 <= j < cs.len(),
        cs[j].path@ == path,
        forall|k: int| 0 <= k < j ==> (#[trigger] cs[k].path)@ != path,
    ensures
        cache_pos(cs, path) == Some(j),
    decreases j,
{
    if j > 0 {
        lemma_cache_pos_found(cs.skip(1), path, j - 1);
    }
}

proof fn lemma_cache_pos_absent(cs: Seq<CachedModule>, path: Seq<char>)
    requires
        forall|k: int| 0 <= k < cs.len() ==> (#[trigger] cs[k].path)@ != path,
    ensures
        cache_pos(cs, path) is None,
    decreases cs.len(),
{
    if cs.len() > 0 {
        lemma_cache_pos_absent(cs.skip(1), path);
    }
}

impl ModuleCache {
    /// The parsed tree for `path`, when the cache holds one.
    pub fn parse(&self, path: &String) -> (r: Option<&Module>)
        ensures
            r matches Some(m) ==> spec_parse(self.entries@, path@) == Some(*m),
            r is None ==> spec_parse(self.entries@, path@) is None,
            cache_wf(*self) ==> (r matches Some(m) ==> m.wf()),
    {
        let mut j: usize = 0;
        while j < self.entries.len()
            invariant
                j <= self.entries@.len(),
                forall|k: int| 0 <= k < j ==> (#[trigger] self.entries@[k].path)@ != path@,
            decreases self.entries@.len() - j,
        {
            if self.entries[j].path == *path {
                proof {
                    lemma_cache_pos_found(self.entries@, path@, j as int);
                }
                return Some(&self.entries[j].module);
            }
            j = j + 1;
        }
        proof {
            lemma_cache_pos_absent(self.entries@, path@);
        }
        None
    }
}

} // verus!
