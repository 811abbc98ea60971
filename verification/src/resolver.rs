use vstd::prelude::*;

verus! {

/// One answer of the module resolver: inside `importer`, the textual
/// specifier `specifier` denotes the absolute path `target`.
#[derive(Clone, Debug)]
pub struct ResolutionEntry {
    pub importer: String,
    pub specifier: String,
    pub target: String,
}

/// The module resolver, as the engine sees it: a finite table mapping
/// `(importer, specifier)` to an absolute path. Computing these answers
/// (probing the file system, package manifests) is an outside collaborator's
/// job; a pair the table does not hold surfaces as a resolution failure.
#[derive(Clone, Debug)]
pub struct ModuleResolver {
    pub entries: Vec<ResolutionEntry>,
}

/// The first matching answer, if any.
pub open spec fn spec_resolve(
    es: Seq<ResolutionEntry>,
    specifier: Seq<char>,
    importer: Seq<char>,
) -> Option<String>
    decreases es.len(),
{
    if es.len() == 0 {
        None
    } else if es[0].importer@ == importer && es[0].specifier@ == specifier {
        Some(es[0].target)
    } else {
        spec_resolve(es.skip(1), specifier, importer)
    }
}

impl ModuleResolver {
    /// Map `specifier`, as written inside `importer`, to an absolute path.
    pub fn resolve(&self, specifier: &String, importer: &String) -> (r: Option<String>)
        ensures
            r == spec_resolve(self.entries@, specifier@, importer@),
    {
        let mut j: usize = 0;
        proof {
            assert(self.entries@.skip(0) =~= self.entries@);
        }
        while j < self.entries.len()
            invariant
                j <= self.entries@.len(),
                spec_resolve(self.entries@, specifier@, importer@) == spec_resolve(
                    self.entries@.skip(j as int),
                    specifier@,
                    importer@,
                ),
            decreases self.entries@.len() - j,
        {
            let e = &self.entries[j];
            proof {
                assert(self.entries@.skip(j as int)[0] == self.entries@[j as int]);
                assert(self.entries@.skip(j as int).skip(1) =~= self.entries@.skip(j + 1));
            }
            if e.importer == *importer && e.specifier == *specifier {
                return Some(e.target.clone());
            }
            j = j + 1;
        }
        None
    }
}

} // verus!
