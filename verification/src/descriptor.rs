use vstd::prelude::*;

verus! {

/// The source-location metadata attached to one candidate record or call
/// site by the instrumentation layer.
///
/// The module path may be absent, in which case the `target` string stands
/// in for it as an identity of equal priority. The file path and the line
/// number may each be absent as well; a descriptor without a line number can
/// never match a line-level allow-list entry.
#[derive(Debug)]
pub struct Descriptor {
    /// The logical module path of the record's call site, if one is known.
    pub module: Option<String>,
    /// The record's target string, used as the identity when `module` is
    /// absent.
    pub target: String,
    /// The physical file path of the record's call site, if one is known.
    pub file: Option<String>,
    /// The 1-based line number of the record's call site, if one is known.
    pub line: Option<u32>,
}

impl Descriptor {
    /// The identifier under which this descriptor is looked up in the
    /// module allow-list: the module path when present, else the target.
    pub open spec fn lookup_ident(self) -> Seq<char> {
        if self.module is Some {
            self.module->0@
        } else {
            self.target@
        }
    }
}

} // verus!
