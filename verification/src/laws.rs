use vstd::prelude::*;

use crate::descriptor::Descriptor;
use crate::filter::{Admission, LineFilter};

verus! {

/// A registered pair always matches: for every enabled `(module, line)`
/// pair, a descriptor that carries exactly that module identifier and line
/// matches the filter — whether or not a fallback filter is configured, and
/// whatever the file allow-list holds.
pub proof fn lemma_registered_pair_matches(
    f: LineFilter,
    d: Descriptor,
    ident: Seq<char>,
    line: u32,
)
    requires
        f.module_set().contains((ident, line)),
        d.lookup_ident() == ident,
        d.line == Some(line),
    ensures
        f.spec_matches(d),
        f.spec_decide(d) == Admission::Always,
{
}

/// An unlisted location is the fallback filter's to decide: for a
/// descriptor whose `(module, line)` and `(file, line)` pairs are both
/// absent from their respective allow-lists, the answer is `Delegate` when
/// a fallback filter is configured — the pipeline then returns the fallback
/// filter's own decision verbatim — and `Never` when none is, so the record
/// is rejected.
pub proof fn lemma_unlisted_location_delegates(f: LineFilter, d: Descriptor)
    requires
        d.line is Some ==> !f.module_set().contains((d.lookup_ident(), d.line->0)),
        d.line is Some && d.file is Some ==> !f.file_set().contains((d.file->0@, d.line->0)),
    ensures
        !f.spec_matches(d),
        f.spec_decide(d) == (if f.has_fallback() {
            Admission::Delegate
        } else {
            Admission::Never
        }),
{
}

/// Enabling the same pair twice is idempotent: each enable call turns the
/// allow-list's key set `s` into `s.insert(k)`, and inserting the same key
/// again leaves the effective membership unchanged.
pub proof fn lemma_enable_idempotent(s: Set<(Seq<char>, u32)>, k: (Seq<char>, u32))
    ensures
        s.insert(k).insert(k) == s.insert(k),
{
    assert(s.insert(k).insert(k) =~= s.insert(k));
}

/// A descriptor without a line number never matches, even if its module
/// identifier alone appears in the allow-list under some other line, and
/// whatever either allow-list holds.
pub proof fn lemma_no_line_never_matches(f: LineFilter, d: Descriptor)
    requires
        d.line is None,
    ensures
        !f.spec_matches(d),
{
}

/// A matching call site's answer is `Always` as soon as the pair is
/// enabled — before any record from the site is evaluated — and the answer
/// never changes for the lifetime of the filter: every mutation only grows
/// the allow-lists (there is no unregistration operation), and any filter
/// state whose allow-lists contain the current ones still answers `Always`.
pub proof fn lemma_interest_answer_stable(earlier: LineFilter, later: LineFilter, d: Descriptor)
    requires
        earlier.spec_matches(d),
        earlier.module_set().subset_of(later.module_set()),
        earlier.file_set().subset_of(later.file_set()),
    ensures
        earlier.spec_decide(d) == Admission::Always,
        later.spec_matches(d),
        later.spec_decide(d) == Admission::Always,
{
}

} // verus!
