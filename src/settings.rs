//! Run settings: which jobs to run, how task files and their templates combine, and
//! how a run ends.

use vstd::prelude::*;
use crate::text::chars_of;

verus! {

/// The code of a character once ASCII upper case letters are lowered.
pub open spec fn ascii_fold(c: char) -> u32 {
    if 'A' <= c && c <= 'Z' {
        (c as u32 + 32) as u32
    } else {
        c as u32
    }
}

/// Whether two strings are equal once ASCII letters are lowered.
pub open spec fn eq_ignore_ascii_case(a: Seq<char>, b: Seq<char>) -> bool {
    a.len() == b.len() && forall|i: int| 0 <= i < a.len() ==> ascii_fold(#[trigger] a[i]) == ascii_fold(b[i])
}

fn fold(c: char) -> (r: u32)
    ensures
        r == ascii_fold(c),
{
    if 'A' <= c && c <= 'Z' {
        c as u32 + 32
    } else {
        c as u32
    }
}

/// Whether `a` and `b` are equal once ASCII letters are lowered.
pub fn equal_ignoring_ascii_case(a: &str, b: &str) -> (r: bool)
    ensures
        r == eq_ignore_ascii_case(a@, b@),
{
    let ac = chars_of(a);
    let bc = chars_of(b);
    if ac.len() != bc.len() {
        return false;
    }
    let mut i: usize = 0;
    while i < ac.len()
        invariant
            ac@ == a@,
            bc@ == b@,
            ac@.len() == bc@.len(),
            i <= ac@.len(),
            forall|k: int| 0 <= k < i ==> ascii_fold(#[trigger] a@[k]) == ascii_fold(b@[k]),
        decreases ac.len() - i,
    {
        if fold(ac[i]) != fold(bc[i]) {
            return false;
        }
        i = i + 1;
    }
    true
}

/// Restricts a run to one job, or to one task of it.
#[derive(Debug, PartialEq, Eq)]
pub struct JobFilter {
    pub job: String,
    pub task: Option<String>,
}

/// A job filter holds `:` more than once.
#[derive(Debug, PartialEq, Eq)]
pub struct JobFilterError;

/// The index of the first `:` in `s`, or its length.
pub open spec fn first_colon(s: Seq<char>) -> int
    decreases s.len(),
{
    if s.len() == 0 {
        0
    } else if s[0] == ':' {
        0
    } else {
        1 + first_colon(s.drop_first())
    }
}

proof fn lemma_first_colon(s: Seq<char>)
    ensures
        0 <= first_colon(s) <= s.len(),
        first_colon(s) < s.len() ==> s[first_colon(s)] == ':',
        forall|i: int| 0 <= i < first_colon(s) ==> s[i] != ':',
    decreases s.len(),
{
    if s.len() > 0 && s[0] != ':' {
        lemma_first_colon(s.drop_first());
        assert forall|i: int| 0 <= i < first_colon(s) implies s[i] != ':' by {
            if i > 0 {
                assert(s[i] == s.drop_first()[i - 1]);
            }
        }
    }
}

/// `job` alone, or `job:task`; `None` when `:` occurs more than once.
pub open spec fn split_filter(s: Seq<char>) -> Option<(Seq<char>, Option<Seq<char>>)> {
    let k = first_colon(s);
    if k >= s.len() {
        Some((s, None))
    } else if first_colon(s.skip(k + 1)) < s.len() - (k + 1) {
        None
    } else {
        Some((s.take(k), Some(s.skip(k + 1))))
    }
}

fn colon_at_or_end(cs: &Vec<char>, from: usize) -> (r: usize)
    requires
        from <= cs@.len(),
    ensures
        r == from + first_colon(cs@.skip(from as int)),
{
    let ghost s = cs@.skip(from as int);
    let mut i: usize = from;
    assert(cs@.skip(from as int) =~= s);
    while i < cs.len()
        invariant
            from <= i <= cs@.len(),
            s == cs@.skip(from as int),
            first_colon(s) == (i - from) + first_colon(cs@.skip(i as int)),
        decreases cs.len() - i,
    {
        assert(cs@.skip(i as int)[0] == cs@[i as int]);
        if cs[i] == ':' {
            return i;
        }
        assert(cs@.skip(i as int).drop_first() =~= cs@.skip(i + 1));
        i = i + 1;
    }
    assert(cs@.skip(i as int) =~= Seq::<char>::empty());
    i
}

impl JobFilter {
    /// Parses `job` or `job:task`.
    pub fn parse(s: &str) -> (r: Result<JobFilter, JobFilterError>)
        ensures
            match split_filter(s@) {
                Some((job, task)) => r matches Ok(f) && f.job@ == job && crate::entry::opt_view(f.task) == task,
                None => r is Err,
            },
    {
        let cs = chars_of(s);
        let n = cs.len();
        let k = colon_at_or_end(&cs, 0);
        assert(cs@.skip(0) =~= s@);
        if k >= n {
            return Ok(JobFilter { job: String::from_str(s), task: None });
        }
        let k2 = colon_at_or_end(&cs, k + 1);
        if k2 < n {
            return Err(JobFilterError);
        }
        let job = String::from_str(s.substring_char(0, k));
        let task = String::from_str(s.substring_char(k + 1, n));
        assert(s@.subrange(0, k as int) =~= s@.take(k as int));
        assert(s@.subrange(k + 1, n as int) =~= s@.skip(k + 1));
        Ok(JobFilter { job, task: Some(task) })
    }

    /// Whether the job named `job_name` is selected, ignoring ASCII case.
    pub fn job_matches(&self, job_name: &str) -> (r: bool)
        ensures
            r == eq_ignore_ascii_case(self.job@, job_name@),
    {
        equal_ignoring_ascii_case(self.job.as_str(), job_name)
    }

    /// Whether task `task_name` of the job named exactly `job_name` is selected: every
    /// task is when no task is named, else the named one, ignoring ASCII case.
    pub fn task_matches(&self, job_name: &str, task_name: &str) -> (r: bool)
        ensures
            r == (self.job@ == job_name@ && match self.task {
                Some(t) => eq_ignore_ascii_case(t@, task_name@),
                None => true,
            }),
    {
        let j = String::from_str(job_name);
        if self.job != j {
            return false;
        }
        match &self.task {
            Some(t) => equal_ignoring_ascii_case(t.as_str(), task_name),
            None => true,
        }
    }
}

impl std::str::FromStr for JobFilter {
    type Err = JobFilterError;

    fn from_str(s: &str) -> Result<JobFilter, JobFilterError> {
        JobFilter::parse(s)
    }
}

/// What a run does.
#[derive(Debug, Clone, PartialEq, Eq)]
pub enum RunMode {
    Normal { once: bool, dry_run: bool },
    VerifyOnly,
    MarkOldEntriesAsRead,
    Manual { once: bool, task: String },
}

/// How a run ended.
#[derive(Debug, Clone, Copy, PartialEq, Eq, Structural)]
pub enum RunOutcome {
    Finished,
    ConfigError,
    RuntimeError,
    VerificationFailed,
}

/// The process exit code for how a run ended.
pub fn exit_code(o: RunOutcome) -> (r: u8)
    ensures
        r == match o {
            RunOutcome::Finished => 0u8,
            RunOutcome::ConfigError => 1u8,
            RunOutcome::RuntimeError => 2u8,
            RunOutcome::VerificationFailed => 3u8,
        },
{
    match o {
        RunOutcome::Finished => 0,
        RunOutcome::ConfigError => 1,
        RunOutcome::RuntimeError => 2,
        RunOutcome::VerificationFailed => 3,
    }
}

/// One leaf of a configuration document: the keys leading to it and its value, written
/// out. Tables are descended into; lists and scalars are leaves.
#[derive(Debug)]
pub struct DocEntry {
    pub path: Vec<String>,
    pub value: String,
}

pub struct DocEntryView {
    pub path: Seq<Seq<char>>,
    pub value: Seq<char>,
}

impl View for DocEntry {
    type V = DocEntryView;

    open spec fn view(&self) -> DocEntryView {
        DocEntryView { path: crate::entry::strings_view(self.path@), value: self.value@ }
    }
}

pub open spec fn doc_view(d: Seq<DocEntry>) -> Seq<DocEntryView> {
    Seq::new(d.len(), |i: int| d[i]@)
}

/// Whether one key path leads into (or is) the other.
pub open spec fn related(a: Seq<Seq<char>>, b: Seq<Seq<char>>) -> bool {
    (a.len() <= b.len() && b.take(a.len() as int) == a) || (b.len() <= a.len() && a.take(b.len() as int) == b)
}

/// Whether a later document sets `p`, something inside it, or something it is inside.
pub open spec fn overridden(p: Seq<Seq<char>>, over: Seq<DocEntryView>) -> bool {
    exists|i: int| 0 <= i < over.len() && related(p, #[trigger] over[i].path)
}

/// The leaves of `base` that `over` does not override, in order.
pub open spec fn kept(base: Seq<DocEntryView>, over: Seq<DocEntryView>) -> Seq<DocEntryView>
    decreases base.len(),
{
    if base.len() == 0 {
        base
    } else if overridden(base.last().path, over) {
        kept(base.drop_last(), over)
    } else {
        kept(base.drop_last(), over).push(base.last())
    }
}

/// `over` laid over `base`: the last writer wins per leaf, and a leaf replaces a whole
/// list or table.
pub open spec fn merged(base: Seq<DocEntryView>, over: Seq<DocEntryView>) -> Seq<DocEntryView> {
    kept(base, over) + over
}

fn strings_equal(a: &Vec<String>, b: &Vec<String>, n: usize) -> (r: bool)
    requires
        n <= a@.len(),
        n <= b@.len(),
    ensures
        r == (crate::entry::strings_view(a@).take(n as int) == crate::entry::strings_view(b@).take(n as int)),
{
    let ghost av = crate::entry::strings_view(a@);
    let ghost bv = crate::entry::strings_view(b@);
    let mut i: usize = 0;
    while i < n
        invariant
            n <= a@.len() && n <= b@.len(),
            i <= n,
            av == crate::entry::strings_view(a@),
            bv == crate::entry::strings_view(b@),
            forall|k: int| 0 <= k < i ==> av[k] == bv[k],
        decreases n - i,
    {
        if a[i] != b[i] {
            assert(av.take(n as int)[i as int] != bv.take(n as int)[i as int]);
            return false;
        }
        i = i + 1;
    }
    assert(av.take(n as int) =~= bv.take(n as int));
    true
}

fn paths_related(a: &Vec<String>, b: &Vec<String>) -> (r: bool)
    ensures
        r == related(crate::entry::strings_view(a@), crate::entry::strings_view(b@)),
{
    let ghost av = crate::entry::strings_view(a@);
    let ghost bv = crate::entry::strings_view(b@);
    if a.len() <= b.len() {
        let r = strings_equal(a, b, a.len());
        assert(av.take(a@.len() as int) =~= av);
        r
    } else {
        let r = strings_equal(a, b, b.len());
        assert(bv.take(b@.len() as int) =~= bv);
        r
    }
}

fn is_overridden(p: &Vec<String>, over: &Vec<DocEntry>) -> (r: bool)
    ensures
        r == overridden(crate::entry::strings_view(p@), doc_view(over@)),
{
    let ghost ov = doc_view(over@);
    let mut i: usize = 0;
    while i < over.len()
        invariant
            i <= over@.len(),
            ov == doc_view(over@),
            forall|k: int| 0 <= k < i ==> !related(crate::entry::strings_view(p@), #[trigger] ov[k].path),
        decreases over.len() - i,
    {
        if paths_related(p, &over[i].path) {
            assert(related(crate::entry::strings_view(p@), ov[i as int].path));
            return true;
        }
        i = i + 1;
    }
    false
}

/// Lays the leaves of `over` over those of `base`.
pub fn merge(base: Vec<DocEntry>, over: Vec<DocEntry>) -> (r: Vec<DocEntry>)
    ensures
        doc_view(r@) == merged(doc_view(base@), doc_view(over@)),
{
    let ghost bv = doc_view(base@);
    let ghost ov = doc_view(over@);
    let mut base = base;
    let mut over = over;
    let mut rev: Vec<DocEntry> = Vec::new();
    let mut keep: Vec<DocEntry> = Vec::new();
    let ghost n0 = base@.len();
    assert(bv.take(n0 as int) =~= bv);
    assert(doc_view(rev@).reverse() =~= Seq::<DocEntryView>::empty());
    assert(kept(bv, ov) + Seq::<DocEntryView>::empty() =~= kept(bv, ov));
    while base.len() > 0
        invariant
            ov == doc_view(over@),
            bv.len() == n0,
            doc_view(base@) == bv.take(base@.len() as int),
            base@.len() <= n0,
            kept(bv, ov) == kept(bv.take(base@.len() as int), ov) + doc_view(rev@).reverse(),
        decreases base.len(),
    {
        let ghost n: int = base@.len() as int;
        let e = base.pop().unwrap();
        assert(doc_view(base@) =~= bv.take(n - 1));
        assert(bv.take(n).drop_last() =~= bv.take(n - 1));
        assert(bv.take(n).last() == e@);
        if !is_overridden(&e.path, &over) {
            let ghost before = doc_view(rev@);
            rev.push(e);
            assert(doc_view(rev@) =~= before.push(e@));
            assert(before.push(e@).reverse() =~= seq![e@] + before.reverse());
            assert(kept(bv.take(n - 1), ov).push(e@) + before.reverse() =~= kept(bv.take(n - 1), ov) + (seq![e@] + before.reverse()));
        }
    }
    assert(bv.take(0) =~= Seq::<DocEntryView>::empty());
    assert(kept(bv, ov) =~= doc_view(rev@).reverse());
    while rev.len() > 0
        invariant
            doc_view(keep@) + doc_view(rev@).reverse() == kept(bv, ov),
        decreases rev.len(),
    {
        let ghost before_rev = doc_view(rev@);
        let ghost before_keep = doc_view(keep@);
        let e = rev.pop().unwrap();
        keep.push(e);
        assert(before_rev =~= doc_view(rev@).push(e@));
        assert(doc_view(rev@).push(e@).reverse() =~= seq![e@] + doc_view(rev@).reverse());
        assert(doc_view(keep@) =~= before_keep.push(e@));
        assert(before_keep + (seq![e@] + doc_view(rev@).reverse()) =~= before_keep.push(e@) + doc_view(rev@).reverse());
    }
    assert(doc_view(rev@).reverse() =~= Seq::<DocEntryView>::empty());
    assert(doc_view(keep@) =~= kept(bv, ov));
    let ghost kv = doc_view(keep@);
    keep.append(&mut over);
    assert(doc_view(keep@) =~= kv + ov);
    keep
}

proof fn lemma_kept_props(base: Seq<DocEntryView>, over: Seq<DocEntryView>)
    ensures
        forall|k: int| 0 <= k < kept(base, over).len() ==> !overridden((#[trigger] kept(base, over)[k]).path, over),
        forall|j: int| 0 <= j < base.len() && !overridden((#[trigger] base[j]).path, over) ==> kept(base, over).contains(base[j]),
    decreases base.len(),
{
    if base.len() > 0 {
        let rest = base.drop_last();
        lemma_kept_props(rest, over);
        let kb = kept(base, over);
        let kr = kept(rest, over);
        assert forall|j: int| 0 <= j < base.len() && !overridden((#[trigger] base[j]).path, over) implies kb.contains(base[j]) by {
            if j < base.len() - 1 {
                assert(rest[j] == base[j]);
                let w = choose|w: int| 0 <= w < kr.len() && kr[w] == rest[j];
                assert(kb[w] == base[j]);
            } else {
                assert(kb[kb.len() - 1] == base[j]);
            }
        }
    }
}

/// Laying a task file over its templates: whatever the task file sets wins, including
/// everything under a key it sets (a list it sets replaces the template's list rather
/// than being appended to); what it does not touch is kept from the templates.
pub proof fn lemma_later_document_wins(base: Seq<DocEntryView>, over: Seq<DocEntryView>)
    ensures
        forall|i: int| 0 <= i < over.len() ==> merged(base, over).contains(#[trigger] over[i]),
        forall|k: int| 0 <= k < merged(base, over).len() && overridden((#[trigger] merged(base, over)[k]).path, over)
            ==> over.contains(merged(base, over)[k]),
        forall|j: int| 0 <= j < base.len() && !overridden((#[trigger] base[j]).path, over)
            ==> merged(base, over).contains(base[j]),
{
    lemma_kept_props(base, over);
    let m = merged(base, over);
    let kb = kept(base, over);
    assert forall|i: int| 0 <= i < over.len() implies m.contains(#[trigger] over[i]) by {
        assert(m[kb.len() + i] == over[i]);
    }
    assert forall|k: int| 0 <= k < m.len() && overridden((#[trigger] m[k]).path, over) implies over.contains(m[k]) by {
        if k < kb.len() {
            assert(m[k] == kb[k]);
        } else {
            assert(over[k - kb.len()] == m[k]);
        }
    }
    assert forall|j: int| 0 <= j < base.len() && !overridden((#[trigger] base[j]).path, over) implies m.contains(base[j]) by {
        let w = choose|w: int| 0 <= w < kb.len() && kb[w] == base[j];
        assert(m[w] == base[j]);
    }
}

/// The documents laid over one another in order.
pub open spec fn merged_all(ls: Seq<Seq<DocEntryView>>) -> Seq<DocEntryView>
    decreases ls.len(),
{
    if ls.len() == 0 {
        Seq::empty()
    } else {
        merged(merged_all(ls.drop_last()), ls.last())
    }
}

pub open spec fn layers_view(ls: Seq<Vec<DocEntry>>) -> Seq<Seq<DocEntryView>> {
    Seq::new(ls.len(), |i: int| doc_view(ls[i]@))
}

/// Lays the documents over one another in order: templates in the order listed, the
/// task file last.
pub fn merge_all(layers: Vec<Vec<DocEntry>>) -> (r: Vec<DocEntry>)
    ensures
        doc_view(r@) == merged_all(layers_view(layers@)),
{
    let ghost lv = layers_view(layers@);
    let ghost n = layers@.len();
    let mut layers = layers;
    let mut rev: Vec<Vec<DocEntry>> = Vec::new();
    while layers.len() > 0
        invariant
            layers@.len() + rev@.len() == n,
            layers_view(layers@) == lv.take(layers@.len() as int),
            lv.len() == n,
            forall|j: int| 0 <= j < rev@.len() ==> doc_view((#[trigger] rev@[j])@) == lv[n - 1 - j],
        decreases layers.len(),
    {
        let ghost k: int = layers@.len() as int;
        let l = layers.pop().unwrap();
        assert(layers_view(layers@) =~= lv.take(k - 1));
        assert(doc_view(l@) == lv.take(k)[k - 1]);
        rev.push(l);
    }
    let mut acc: Vec<DocEntry> = Vec::new();
    assert(lv.take(0) =~= Seq::<Seq<DocEntryView>>::empty());
    assert(doc_view(acc@) =~= Seq::<DocEntryView>::empty());
    while rev.len() > 0
        invariant
            lv.len() == n,
            rev@.len() <= n,
            forall|j: int| 0 <= j < rev@.len() ==> doc_view((#[trigger] rev@[j])@) == lv[n - 1 - j],
            doc_view(acc@) == merged_all(lv.take(n - rev@.len())),
        decreases rev.len(),
    {
        let ghost done = n - rev@.len();
        let l = rev.pop().unwrap();
        assert(doc_view(l@) == lv[done]);
        acc = merge(acc, l);
        assert(lv.take(done + 1).drop_last() =~= lv.take(done));
        assert(lv.take(done + 1).last() == lv[done]);
    }
    assert(lv.take(n as int) =~= lv);
    acc
}

/// Whether a document sets `disabled: true` at its top level.
pub open spec fn is_disabled(doc: Seq<DocEntryView>) -> bool {
    exists|i: int| 0 <= i < doc.len() && (#[trigger] doc[i]).path == seq!["disabled"@] && doc[i].value == "true"@
}

/// Whether the task file disables the task; this is read before any template is applied.
pub fn disabled(doc: &Vec<DocEntry>) -> (r: bool)
    ensures
        r == is_disabled(doc_view(doc@)),
{
    let ghost dv = doc_view(doc@);
    let key = String::from_str("disabled");
    let yes = String::from_str("true");
    let mut i: usize = 0;
    while i < doc.len()
        invariant
            i <= doc@.len(),
            dv == doc_view(doc@),
            key@ == "disabled"@,
            yes@ == "true"@,
            forall|k: int| 0 <= k < i ==> !((#[trigger] dv[k]).path == seq!["disabled"@] && dv[k].value == "true"@),
        decreases doc.len() - i,
    {
        let e = &doc[i];
        if e.path.len() == 1 && e.path[0] == key && e.value == yes {
            assert(dv[i as int].path =~= seq!["disabled"@]);
            return true;
        }
        proof {
            assert(dv[i as int] == doc@[i as int]@);
            if dv[i as int].path == seq!["disabled"@] {
                assert(dv[i as int].path.len() == 1);
                assert(e.path@.len() == 1);
                assert(crate::entry::strings_view(e.path@)[0] == e.path@[0]@);
            }
        }
        i = i + 1;
    }
    false
}

} // verus!
