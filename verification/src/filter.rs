use vstd::prelude::*;

use crate::descriptor::Descriptor;
use crate::paths::{check_absolute, check_source_file, decode_text, path_fault, path_ok, text_of,
    BadPath, PathFault};
use tracing_subscriber::EnvFilter;

verus! {

/// Relies on `tracing_subscriber::EnvFilter` only as an opaque value: the
/// filter stores one and hands it back out, and never looks inside it.
#[verifier::external_type_specification]
#[verifier::external_body]
pub struct ExEnvFilter(EnvFilter);

/// The answer of the filter for one descriptor.
///
/// For the call-site interest query, `Always` means the site is
/// unconditionally interesting, `Never` that no record from it can be
/// admitted, and `Delegate` that the configured fallback filter's own
/// interest answer applies. For the per-record decision, `Always` means
/// admitted, `Never` rejected, and `Delegate` that the configured fallback
/// filter's boolean decision applies verbatim.
#[derive(Debug, Clone, Copy, PartialEq, Eq)]
pub enum Admission {
    /// The descriptor matches an allow-list entry: admitted unconditionally.
    Always,
    /// No match and no fallback filter is configured: rejected.
    Never,
    /// No match: the configured fallback filter decides.
    Delegate,
}

/// The location key that one allow-list entry stands for: the identifier's
/// characters and the line number.
pub open spec fn key_at(entries: Seq<(String, u32)>, i: int) -> (Seq<char>, u32) {
    (entries[i].0@, entries[i].1)
}

/// Whether some entry of the list stands for the key `k`.
pub open spec fn has_key(entries: Seq<(String, u32)>, k: (Seq<char>, u32)) -> bool {
    exists|i: int| 0 <= i < entries.len() && key_at(entries, i) == k
}

/// The set of location keys that the list's entries stand for.
pub open spec fn key_set(entries: Seq<(String, u32)>) -> Set<(Seq<char>, u32)> {
    Set::new(|k: (Seq<char>, u32)| has_key(entries, k))
}

/// Whether the path of the batch entry at `i` may be stored in the file
/// allow-list.
pub open spec fn path_ok_at(files: Seq<(Vec<u8>, u32)>, i: int) -> bool {
    path_ok(files[i].0@)
}

/// Whether every path of the batch may be stored in the file allow-list.
pub open spec fn all_paths_ok(files: Seq<(Vec<u8>, u32)>) -> bool {
    forall|i: int| 0 <= i < files.len() ==> #[trigger] path_ok_at(files, i)
}

/// The location key that the batch entry at `i` stands for once its path
/// is decoded to text.
pub open spec fn file_key_at(files: Seq<(Vec<u8>, u32)>, i: int) -> (Seq<char>, u32) {
    (text_of(files[i].0@)->0, files[i].1)
}

/// The set of location keys that a batch of file entries stands for.
pub open spec fn decoded_key_set(files: Seq<(Vec<u8>, u32)>) -> Set<(Seq<char>, u32)> {
    Set::new(
        |k: (Seq<char>, u32)|
            exists|i: int| 0 <= i < files.len() && file_key_at(files, i) == k,
    )
}

/// No two entries of the list stand for the same location key.
pub open spec fn keys_distinct(entries: Seq<(String, u32)>) -> bool {
    forall|i: int, j: int|
        0 <= i < j < entries.len() ==> key_at(entries, i) != key_at(entries, j)
}

/// A filter that admits spans and events by exact `(module path, line)` or
/// `(file path, line)` membership in its allow-lists, delegating everything
/// else to an optional fallback [`EnvFilter`].
///
/// The filter is built single-threaded — constructed empty, extended by the
/// enable calls, optionally composed with a fallback — and is then read
/// only: no operation removes an entry.
#[derive(Debug)]
pub struct LineFilter {
    by_module: Vec<(String, u32)>,
    by_file: Vec<(String, u32)>,
    env: Option<EnvFilter>,
}

impl LineFilter {
    /// The set of `(module path, line)` keys enabled in this filter.
    pub closed spec fn module_set(self) -> Set<(Seq<char>, u32)> {
        key_set(self.by_module@)
    }

    /// The set of `(file path, line)` keys enabled in this filter.
    pub closed spec fn file_set(self) -> Set<(Seq<char>, u32)> {
        key_set(self.by_file@)
    }

    /// Whether a fallback filter is configured.
    pub open spec fn has_fallback(self) -> bool {
        self.spec_env() is Some
    }

    /// The stored fallback filter.
    pub closed spec fn spec_env(self) -> Option<EnvFilter> {
        self.env
    }

    /// Each allow-list holds every key once.
    pub closed spec fn wf(self) -> bool {
        keys_distinct(self.by_module@) && keys_distinct(self.by_file@)
    }

    /// Whether the descriptor's reported location is an exact member of
    /// either allow-list: its line paired with its module identifier (or
    /// target, when no module path is present) is in the module set, or its
    /// line paired with its file path is in the file set. A descriptor
    /// without a line number never matches.
    pub open spec fn spec_matches(self, d: Descriptor) -> bool {
        match d.line {
            Some(line) => self.module_set().contains((d.lookup_ident(), line)) || (d.file is Some
                && self.file_set().contains((d.file->0@, line))),
            None => false,
        }
    }

    /// The answer for one descriptor: `Always` on an allow-list match,
    /// else `Delegate` when a fallback filter is configured, else `Never`.
    pub open spec fn spec_decide(self, d: Descriptor) -> Admission {
        if self.spec_matches(d) {
            Admission::Always
        } else if self.has_fallback() {
            Admission::Delegate
        } else {
            Admission::Never
        }
    }

    /// Returns a new `LineFilter`.
    ///
    /// By default, no spans and events are enabled, and no fallback filter
    /// is configured.
    pub fn new() -> (f: LineFilter)
        ensures
            f.module_set() == Set::<(Seq<char>, u32)>::empty(),
            f.file_set() == Set::<(Seq<char>, u32)>::empty(),
            !f.has_fallback(),
            f.wf(),
    {
        let f = LineFilter { by_module: Vec::new(), by_file: Vec::new(), env: None };
        proof {
            assert(f.module_set() =~= Set::<(Seq<char>, u32)>::empty());
            assert(f.file_set() =~= Set::<(Seq<char>, u32)>::empty());
        }
        f
    }

    /// Composes `self` with an [`EnvFilter`] that will be consulted for
    /// spans and events that are not in the lists of enabled
    /// `(module, line)` and `(file, line)` pairs. A previously stored
    /// fallback filter is replaced.
    pub fn with_env_filter(&mut self, env: EnvFilter)
        ensures
            final(self).spec_env() == Some(env),
            final(self).module_set() == old(self).module_set(),
            final(self).file_set() == old(self).file_set(),
            final(self).wf() == old(self).wf(),
    {
        self.env = Some(env);
    }

    /// The configured fallback filter, if any.
    pub fn env_filter(&self) -> (r: Option<&EnvFilter>)
        ensures
            r is Some <==> self.has_fallback(),
            r matches Some(e) ==> self.spec_env() == Some(*e),
    {
        self.env.as_ref()
    }

    /// Enable a span or event in the module `module` on line `line`.
    ///
    /// Inserting a pair that is already enabled leaves the allow-list's
    /// membership unchanged; if no span or event exists at the location,
    /// the entry is silently inert. This call never fails.
    pub fn enable_by_mod(&mut self, module: &str, line: u32)
        requires
            old(self).wf(),
        ensures
            final(self).wf(),
            final(self).module_set() == old(self).module_set().insert((module@, line)),
            final(self).file_set() == old(self).file_set(),
            final(self).spec_env() == old(self).spec_env(),
    {
        insert_key(&mut self.by_module, module.to_owned(), line);
    }

    /// Enable a span or event in the file `file` on line `line`.
    ///
    /// The path is validated first: it must be absolute, it must name a
    /// source file, and it must be valid text. A path that breaks one of
    /// those rules is rejected with a [`BadPath`] naming the first broken
    /// rule, and the filter is left unchanged. Inserting a pair that is
    /// already enabled leaves the allow-list's membership unchanged.
    pub fn enable_by_file(&mut self, file: Vec<u8>, line: u32) -> (r: Result<(), BadPath>)
        requires
            old(self).wf(),
        ensures
            final(self).wf(),
            final(self).module_set() == old(self).module_set(),
            final(self).spec_env() == old(self).spec_env(),
            r is Ok <==> path_ok(file@),
            path_ok(file@) ==> final(self).file_set() == old(self).file_set().insert(
                (text_of(file@)->0, line),
            ),
            !path_ok(file@) ==> final(self).file_set() == old(self).file_set() && (
            r matches Err(e) && e.path@ == file@ && e.fault == path_fault(file@)),
    {
        if !check_absolute(&file) {
            return Err(BadPath::new(file, PathFault::NotAbsolute));
        }
        if !check_source_file(&file) {
            return Err(BadPath::new(file, PathFault::NotSourceFile));
        }
        match decode_text(file) {
            Ok(text) => {
                insert_key(&mut self.by_file, text, line);
                Ok(())
            },
            Err(bytes) => Err(BadPath::new(bytes, PathFault::NotText)),
        }
    }

    /// Enable a batch of spans or events by module path, in order.
    ///
    /// This is equivalent to calling [`LineFilter::enable_by_mod`] for each
    /// pair of the batch, and never fails.
    pub fn with_modules(&mut self, modules: Vec<(String, u32)>)
        requires
            old(self).wf(),
        ensures
            final(self).wf(),
            final(self).module_set() == old(self).module_set().union(key_set(modules@)),
            final(self).file_set() == old(self).file_set(),
            final(self).spec_env() == old(self).spec_env(),
    {
        let n = modules.len();
        let mut i: usize = 0;
        while i < n
            invariant
                n == modules@.len(),
                0 <= i <= n,
                self.wf(),
                self.module_set() == old(self).module_set().union(
                    key_set(modules@.take(i as int)),
                ),
                self.file_set() == old(self).file_set(),
                self.spec_env() == old(self).spec_env(),
            decreases n - i,
        {
            let entry: &(String, u32) = &modules[i];
            insert_key(&mut self.by_module, entry.0.clone(), entry.1);
            proof {
                lemma_key_set_take_step(modules@, i as int);
                assert(old(self).module_set().union(key_set(modules@.take(i as int))).insert(
                    key_at(modules@, i as int),
                ) =~= old(self).module_set().union(key_set(modules@.take(i + 1))));
            }
            i = i + 1;
        }
        proof {
            assert(modules@.take(n as int) =~= modules@);
        }
    }

    /// Enable a batch of spans or events by file path, in order.
    ///
    /// Each path is validated as in [`LineFilter::enable_by_file`]. The
    /// batch is applied best-effort: entries are inserted until the first
    /// invalid path, whose error is returned, and the entries before it
    /// stay enabled.
    pub fn with_files(&mut self, files: Vec<(Vec<u8>, u32)>) -> (r: Result<(), BadPath>)
        requires
            old(self).wf(),
        ensures
            final(self).wf(),
            final(self).module_set() == old(self).module_set(),
            final(self).spec_env() == old(self).spec_env(),
            r is Ok <==> all_paths_ok(files@),
            r is Ok ==> final(self).file_set() == old(self).file_set().union(
                decoded_key_set(files@),
            ),
            r matches Err(e) ==> exists|k: int|
                0 <= k < files@.len() && !#[trigger] path_ok_at(files@, k) && (forall|j: int|
                    0 <= j < k ==> path_ok_at(files@, j)) && e.path@ == files@[k].0@ && e.fault
                    == path_fault(files@[k].0@) && final(self).file_set() == old(
                    self,
                ).file_set().union(decoded_key_set(files@.take(k))),
    {
        let n = files.len();
        let mut i: usize = 0;
        while i < n
            invariant
                n == files@.len(),
                0 <= i <= n,
                self.wf(),
                self.module_set() == old(self).module_set(),
                self.spec_env() == old(self).spec_env(),
                forall|j: int| 0 <= j < i ==> path_ok_at(files@, j),
                self.file_set() == old(self).file_set().union(
                    decoded_key_set(files@.take(i as int)),
                ),
            decreases n - i,
        {
            let entry: &(Vec<u8>, u32) = &files[i];
            let bytes = copy_bytes(&entry.0);
            let line = entry.1;
            match self.enable_by_file(bytes, line) {
                Ok(()) => {
                    proof {
                        lemma_decoded_key_set_take_step(files@, i as int);
                        assert(old(self).file_set().union(
                            decoded_key_set(files@.take(i as int)),
                        ).insert(file_key_at(files@, i as int)) =~= old(self).file_set().union(
                            decoded_key_set(files@.take(i + 1)),
                        ));
                    }
                },
                Err(e) => {
                    proof {
                        assert(!path_ok_at(files@, i as int));
                    }
                    return Err(e);
                },
            }
            i = i + 1;
        }
        proof {
            assert(files@.take(n as int) =~= files@);
        }
        Ok(())
    }

    /// Whether the descriptor's reported location is an exact member of
    /// either allow-list; see [`LineFilter::spec_matches`]. The test is a
    /// pure read: either list suffices, and the fallback filter plays no
    /// part in it.
    pub fn contains(&self, d: &Descriptor) -> (r: bool)
        ensures
            r == self.spec_matches(*d),
    {
        match d.line {
            None => false,
            Some(line) => {
                let ident: &String = match &d.module {
                    Some(m) => m,
                    None => &d.target,
                };
                if lookup(&self.by_module, ident, line) {
                    true
                } else {
                    match &d.file {
                        Some(f) => lookup(&self.by_file, f, line),
                        None => false,
                    }
                }
            },
        }
    }

    /// The filter's answer for one descriptor: `Always` on an allow-list
    /// match, else `Delegate` when a fallback filter is configured, else
    /// `Never`. The interest query for a call site and the admission
    /// decision for a single record both follow this answer: `Always`
    /// admits, `Never` rejects, and `Delegate` defers to the fallback
    /// filter's own answer, returned verbatim.
    pub fn decide(&self, d: &Descriptor) -> (a: Admission)
        ensures
            a == self.spec_decide(*d),
    {
        if self.contains(d) {
            Admission::Always
        } else if self.env.is_some() {
            Admission::Delegate
        } else {
            Admission::Never
        }
    }
}

impl Default for LineFilter {
    /// Returns the empty filter: no spans and events enabled, no fallback
    /// filter configured.
    fn default() -> (f: Self)
        ensures
            f.module_set() == Set::<(Seq<char>, u32)>::empty(),
            f.file_set() == Set::<(Seq<char>, u32)>::empty(),
            !f.has_fallback(),
            f.wf(),
    {
        LineFilter::new()
    }
}

/// Extending a prefix of a list by one entry extends the keys its prefix
/// stands for by that entry's key.
proof fn lemma_key_set_take_step(s: Seq<(String, u32)>, i: int)
    requires
        0 <= i < s.len(),
    ensures
        key_set(s.take(i + 1)) == key_set(s.take(i)).insert(key_at(s, i)),
{
    let longer = s.take(i + 1);
    let shorter = s.take(i);
    let k = key_at(s, i);
    assert forall|q: (Seq<char>, u32)|
        key_set(longer).contains(q) <==> key_set(shorter).insert(k).contains(q) by {
        if has_key(longer, q) {
            let w = choose|w: int| 0 <= w < longer.len() && key_at(longer, w) == q;
            if w < i {
                assert(key_at(shorter, w) == q);
            } else {
                assert(q == k);
            }
        }
        if has_key(shorter, q) {
            let w = choose|w: int| 0 <= w < shorter.len() && key_at(shorter, w) == q;
            assert(key_at(longer, w) == q);
        }
        if q == k {
            assert(key_at(longer, i) == q);
        }
    }
    assert(key_set(longer) =~= key_set(shorter).insert(k));
}

/// Extending a prefix of a batch by one entry extends the keys its prefix
/// stands for by that entry's decoded key.
proof fn lemma_decoded_key_set_take_step(s: Seq<(Vec<u8>, u32)>, i: int)
    requires
        0 <= i < s.len(),
    ensures
        decoded_key_set(s.take(i + 1)) == decoded_key_set(s.take(i)).insert(file_key_at(s, i)),
{
    let longer = s.take(i + 1);
    let shorter = s.take(i);
    let k = file_key_at(s, i);
    assert forall|q: (Seq<char>, u32)|
        decoded_key_set(longer).contains(q) <==> decoded_key_set(shorter).insert(k).contains(
            q,
        ) by {
        if decoded_key_set(longer).contains(q) {
            let w = choose|w: int| 0 <= w < longer.len() && file_key_at(longer, w) == q;
            if w < i {
                assert(file_key_at(shorter, w) == q);
            } else {
                assert(q == k);
            }
        }
        if decoded_key_set(shorter).contains(q) {
            let w = choose|w: int| 0 <= w < shorter.len() && file_key_at(shorter, w) == q;
            assert(file_key_at(longer, w) == q);
        }
        if q == k {
            assert(file_key_at(longer, i) == q);
        }
    }
    assert(decoded_key_set(longer) =~= decoded_key_set(shorter).insert(k));
}

/// A fresh byte vector with the same contents.
fn copy_bytes(v: &Vec<u8>) -> (r: Vec<u8>)
    ensures
        r@ == v@,
{
    let n = v.len();
    let mut r: Vec<u8> = Vec::new();
    let mut i: usize = 0;
    while i < n
        invariant
            n == v@.len(),
            0 <= i <= n,
            r@ == v@.take(i as int),
        decreases n - i,
    {
        r.push(v[i]);
        proof {
            assert(v@.take(i as int).push(v@[i as int]) =~= v@.take(i + 1));
        }
        i = i + 1;
    }
    proof {
        assert(v@.take(n as int) =~= v@);
    }
    r
}

/// Whether some entry of the list stands for `(ident, line)`.
fn lookup(entries: &Vec<(String, u32)>, ident: &String, line: u32) -> (r: bool)
    ensures
        r == has_key(entries@, (ident@, line)),
{
    let n = entries.len();
    let mut i: usize = 0;
    while i < n
        invariant
            n == entries@.len(),
            0 <= i <= n,
            forall|j: int| 0 <= j < i ==> key_at(entries@, j) != (ident@, line),
        decreases n - i,
    {
        let entry: &(String, u32) = &entries[i];
        if entry.1 == line && entry.0 == *ident {
            assert(key_at(entries@, i as int) == (ident@, line));
            return true;
        }
        i = i + 1;
    }
    false
}

/// Appends `(ident, line)` unless an entry already stands for that key, so
/// that each key is held once and the key set grows by exactly that key.
fn insert_key(entries: &mut Vec<(String, u32)>, ident: String, line: u32)
    requires
        keys_distinct(old(entries)@),
    ensures
        keys_distinct(final(entries)@),
        key_set(final(entries)@) == key_set(old(entries)@).insert((ident@, line)),
{
    let ghost k: (Seq<char>, u32) = (ident@, line);
    if lookup(entries, &ident, line) {
        proof {
            assert(key_set(entries@) =~= key_set(entries@).insert(k));
        }
    } else {
        let ghost before = entries@;
        entries.push((ident, line));
        proof {
            assert forall|q: (Seq<char>, u32)|
                key_set(entries@).contains(q) <==> key_set(before).insert(k).contains(q) by {
                if has_key(entries@, q) {
                    let i = choose|i: int|
                        0 <= i < entries@.len() && key_at(entries@, i) == q;
                    if i < before.len() {
                        assert(key_at(before, i) == q);
                    } else {
                        assert(q == k);
                    }
                }
                if has_key(before, q) {
                    let i = choose|i: int| 0 <= i < before.len() && key_at(before, i) == q;
                    assert(key_at(entries@, i) == q);
                }
                if q == k {
                    assert(key_at(entries@, before.len() as int) == q);
                }
            }
            assert(key_set(entries@) =~= key_set(before).insert(k));
            assert forall|i: int, j: int|
                0 <= i < j < entries@.len() implies key_at(entries@, i) != key_at(
                entries@,
                j,
            ) by {
                if j == before.len() {
                    assert(!has_key(before, k));
                    assert(key_at(before, i) == key_at(entries@, i));
                } else {
                    assert(key_at(before, i) == key_at(entries@, i));
                    assert(key_at(before, j) == key_at(entries@, j));
                }
            }
        }
    }
}

} // verus!
