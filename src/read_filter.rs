//! The read-filter: de-duplication state that decides which fetched entries are new.

use vstd::prelude::*;
use crate::entry::{Entry, EntryView, entries_view, opt_view, strings_view, clone_opt};

verus! {

/// How many ids a [`ReadFilterNotPresent`] remembers before it forgets the oldest.
pub const NOT_PRESENT_CAP: usize = 500;

/// Whether `e` carries an id that `ids` holds.
pub open spec fn read_in(ids: Seq<Seq<char>>, e: EntryView) -> bool {
    match e.id {
        Some(id) => ids.contains(id),
        None => false,
    }
}

/// The entries of `es` that are not read under `ids`, in their order.
pub open spec fn unread_in(ids: Seq<Seq<char>>, es: Seq<EntryView>) -> Seq<EntryView>
    decreases es.len(),
{
    if es.len() == 0 {
        es
    } else {
        let rest = unread_in(ids, es.drop_last());
        if read_in(ids, es.last()) {
            rest
        } else {
            rest.push(es.last())
        }
    }
}

/// `ids` after `id` was marked as read: unchanged if already there, else appended,
/// dropping the oldest id when the list would grow past the cap.
pub open spec fn marked(ids: Seq<Seq<char>>, id: Seq<char>) -> Seq<Seq<char>> {
    if ids.contains(id) {
        ids
    } else if ids.len() >= NOT_PRESENT_CAP {
        ids.drop_first().push(id)
    } else {
        ids.push(id)
    }
}

/// `ids` after each of `new_ids` was marked as read, in order.
pub open spec fn marked_all(ids: Seq<Seq<char>>, new_ids: Seq<Seq<char>>) -> Seq<Seq<char>>
    decreases new_ids.len(),
{
    if new_ids.len() == 0 {
        ids
    } else {
        marked(marked_all(ids, new_ids.drop_last()), new_ids.last())
    }
}

/// A well-formed not-present list: within the cap and free of repeats.
pub open spec fn not_present_wf(ids: Seq<Seq<char>>) -> bool {
    ids.len() <= NOT_PRESENT_CAP && ids.no_duplicates()
}

/// Keeps the most recent ids that were marked as read, oldest first; an entry is read
/// if its id is among them.
#[derive(Debug)]
pub struct ReadFilterNotPresent {
    read_list: Vec<String>,
}

impl View for ReadFilterNotPresent {
    type V = Seq<Seq<char>>;

    closed spec fn view(&self) -> Seq<Seq<char>> {
        strings_view(self.read_list@)
    }
}

impl ReadFilterNotPresent {
    #[verifier::type_invariant]
    spec fn inv(self) -> bool {
        not_present_wf(strings_view(self.read_list@))
    }

    /// An empty filter.
    pub fn new() -> (r: ReadFilterNotPresent)
        ensures
            r@ == Seq::<Seq<char>>::empty(),
    {
        let r = ReadFilterNotPresent { read_list: Vec::new() };
        assert(strings_view(r.read_list@) =~= Seq::<Seq<char>>::empty());
        r
    }

    /// Whether the state is within the cap and free of repeats; it always is.
    pub fn is_wf(&self) -> (r: bool)
        ensures
            r,
            not_present_wf(self@),
    {
        proof {
            use_type_invariant(self);
        }
        true
    }

    /// The id marked most recently, if any.
    pub fn last_read(&self) -> (r: Option<String>)
        ensures
            opt_view(r) == (if self@.len() == 0 { None } else { Some(self@.last()) }),
    {
        let n = self.read_list.len();
        if n == 0 {
            None
        } else {
            Some(self.read_list[n - 1].clone())
        }
    }

    /// Whether `id` is among the remembered ids.
    pub fn contains(&self, id: &String) -> (r: bool)
        ensures
            r == self@.contains(id@),
    {
        let mut i: usize = 0;
        while i < self.read_list.len()
            invariant
                i <= self.read_list@.len(),
                forall|j: int| 0 <= j < i ==> self@[j] != id@,
            decreases self.read_list.len() - i,
        {
            if self.read_list[i] == *id {
                assert(self@[i as int] == id@);
                return true;
            }
            i = i + 1;
        }
        false
    }

    /// Whether `e` has an id that is among the remembered ids.
    pub fn is_read(&self, e: &Entry) -> (r: bool)
        ensures
            r == read_in(self@, e@),
    {
        match &e.id {
            Some(id) => self.contains(id),
            None => false,
        }
    }

    /// Removes from `list` every entry that is read, keeping the order of the rest.
    pub fn remove_read_from(&self, list: &mut Vec<Entry>)
        ensures
            entries_view(final(list)@) == unread_in(self@, entries_view(old(list)@)),
    {
        let ghost es = entries_view(list@);
        let mut kept: Vec<Entry> = Vec::new();
        let mut i: usize = 0;
        while i < list.len()
            invariant
                i <= list@.len(),
                es == entries_view(list@),
                entries_view(kept@) == unread_in(self@, es.take(i as int)),
            decreases list.len() - i,
        {
            proof {
                assert(es.take(i + 1).drop_last() =~= es.take(i as int));
                assert(es.take(i + 1).last() == es[i as int]);
            }
            if !self.is_read(&list[i]) {
                let e = list[i].duplicate();
                kept.push(e);
                assert(entries_view(kept@) =~= unread_in(self@, es.take(i as int)).push(es[i as int]));
            }
            i = i + 1;
        }
        assert(es.take(i as int) =~= es);
        *list = kept;
    }

    /// Marks `id` as read. Marking an id that is already read changes nothing;
    /// otherwise the id is appended and, past the cap, the oldest id is forgotten.
    pub fn mark_as_read(&mut self, id: &str)
        ensures
            final(self)@ == marked(old(self)@, id@),
    {
        proof {
            use_type_invariant(&*self);
        }
        let id = String::from_str(id);
        if self.contains(&id) {
            return;
        }
        let ghost before = self@;
        let mut list: Vec<String> = Vec::new();
        std::mem::swap(&mut list, &mut self.read_list);
        if list.len() >= NOT_PRESENT_CAP {
            list.remove(0);
            assert(strings_view(list@) =~= before.drop_first());
        }
        list.push(id);
        proof {
            let after = strings_view(list@);
            if before.len() >= NOT_PRESENT_CAP {
                assert(after =~= before.drop_first().push(id@));
            } else {
                assert(after =~= before.push(id@));
            }
            assert forall|a: int, b: int| 0 <= a < b < after.len() implies after[a] != after[b] by {
                if b == after.len() - 1 {
                    if before.len() >= NOT_PRESENT_CAP {
                        assert(after[a] == before[a + 1]);
                    } else {
                        assert(after[a] == before[a]);
                    }
                } else if before.len() >= NOT_PRESENT_CAP {
                    assert(after[a] == before[a + 1] && after[b] == before[b + 1]);
                }
            }
        }
        self.read_list = list;
    }
}

/// The position of the first entry of `es` whose id is `last`, or the length of `es`.
pub open spec fn position_of(es: Seq<EntryView>, last: Seq<char>) -> int
    decreases es.len(),
{
    if es.len() == 0 {
        0
    } else if es[0].id == Some(last) {
        0
    } else {
        1 + position_of(es.drop_first(), last)
    }
}

/// The entries of `es` that come after the entry whose id is `last`: those at or before
/// its position are read. When no entry has that id, all of `es`.
pub open spec fn newer_than(last: Option<Seq<char>>, es: Seq<EntryView>) -> Seq<EntryView> {
    match last {
        Some(l) => if position_of(es, l) < es.len() { es.skip(position_of(es, l) + 1) } else { es },
        None => es,
    }
}

proof fn lemma_position_step(es: Seq<EntryView>, last: Seq<char>, i: int)
    requires
        0 <= i < es.len(),
        es[i].id != Some(last),
    ensures
        position_of(es.skip(i), last) == 1 + position_of(es.skip(i + 1), last),
{
    assert(es.skip(i).drop_first() =~= es.skip(i + 1));
}

/// Remembers the id of the entry marked as read last; in a fetch listed oldest first,
/// that entry and the ones before it are read.
#[derive(Debug)]
pub struct ReadFilterNewer {
    pub last_read_id: Option<String>,
}

impl ReadFilterNewer {
    /// A filter that has read nothing yet.
    pub fn new() -> (r: ReadFilterNewer)
        ensures
            r.last_read_id is None,
    {
        ReadFilterNewer { last_read_id: None }
    }

    /// The id marked most recently, if any.
    pub fn last_read(&self) -> (r: Option<String>)
        ensures
            opt_view(r) == opt_view(self.last_read_id),
    {
        clone_opt(&self.last_read_id)
    }

    /// Removes from `list` the entry whose id was read last and every entry before it.
    pub fn remove_read_from(&self, list: &mut Vec<Entry>)
        ensures
            entries_view(final(list)@) == newer_than(opt_view(self.last_read_id), entries_view(old(list)@)),
    {
        let ghost es = entries_view(list@);
        let last = match &self.last_read_id {
            Some(l) => l,
            None => {
                return;
            },
        };
        let mut i: usize = 0;
        let mut found = false;
        assert(es.skip(0) =~= es);
        while !found && i < list.len()
            invariant
                i <= list@.len(),
                es == entries_view(list@),
                position_of(es, last@) == i + position_of(es.skip(i as int), last@),
                found ==> i < list@.len() && es[i as int].id == Some(last@),
            decreases list.len() - i + (if found { 0int } else { 1int }),
        {
            let hit = match &list[i].id {
                Some(id) => *id == *last,
                None => false,
            };
            if hit {
                found = true;
            } else {
                proof {
                    lemma_position_step(es, last@, i as int);
                }
                i = i + 1;
            }
        }
        if found {
            let n = list.len();
            assert(es.skip(i as int)[0] == es[i as int]);
            assert(i < n);
            let tail = list.split_off(i + 1);
            *list = tail;
            assert(entries_view(list@) =~= es.skip(i + 1));
        } else {
            assert(es.skip(i as int) =~= Seq::<EntryView>::empty());
        }
    }

    /// Marks `id` as the most recent entry read.
    pub fn mark_as_read(&mut self, id: &str)
        ensures
            opt_view(final(self).last_read_id) == Some(id@),
    {
        self.last_read_id = Some(String::from_str(id));
    }
}

/// Which kind of read-filter a task uses.
#[derive(Debug, Clone, Copy, PartialEq, Eq, Structural)]
pub enum Kind {
    NewerThan,
    NotPresent,
}

/// The de-duplication state of a source.
#[derive(Debug)]
pub enum ReadFilter {
    NewerThan(ReadFilterNewer),
    NotPresent(ReadFilterNotPresent),
}

/// The abstract state of a read-filter.
pub enum ReadFilterView {
    NewerThan(Option<Seq<char>>),
    NotPresent(Seq<Seq<char>>),
}

impl View for ReadFilter {
    type V = ReadFilterView;

    open spec fn view(&self) -> ReadFilterView {
        match self {
            ReadFilter::NewerThan(f) => ReadFilterView::NewerThan(opt_view(f.last_read_id)),
            ReadFilter::NotPresent(f) => ReadFilterView::NotPresent(f@),
        }
    }
}

/// The entries of `es` that `rf` lets through.
pub open spec fn rf_unread(rf: ReadFilterView, es: Seq<EntryView>) -> Seq<EntryView> {
    match rf {
        ReadFilterView::NewerThan(last) => newer_than(last, es),
        ReadFilterView::NotPresent(ids) => unread_in(ids, es),
    }
}

/// `rf` after `id` was marked as read.
pub open spec fn rf_marked(rf: ReadFilterView, id: Seq<char>) -> ReadFilterView {
    match rf {
        ReadFilterView::NewerThan(_) => ReadFilterView::NewerThan(Some(id)),
        ReadFilterView::NotPresent(ids) => ReadFilterView::NotPresent(marked(ids, id)),
    }
}

/// The kind of a read-filter state.
pub open spec fn rf_kind(rf: ReadFilterView) -> Kind {
    match rf {
        ReadFilterView::NewerThan(_) => Kind::NewerThan,
        ReadFilterView::NotPresent(_) => Kind::NotPresent,
    }
}

/// A well-formed read-filter state.
pub open spec fn rf_wf(rf: ReadFilterView) -> bool {
    match rf {
        ReadFilterView::NewerThan(_) => true,
        ReadFilterView::NotPresent(ids) => not_present_wf(ids),
    }
}

/// The ids that a read-filter state holds, oldest first.
pub open spec fn rf_ids(rf: ReadFilterView) -> Seq<Seq<char>> {
    match rf {
        ReadFilterView::NewerThan(Some(id)) => seq![id],
        ReadFilterView::NewerThan(None) => Seq::empty(),
        ReadFilterView::NotPresent(ids) => ids,
    }
}

/// The persisted form of a read-filter: its kind and the ids it holds, oldest first.
#[derive(Debug)]
pub struct SavedReadFilter {
    pub kind: Kind,
    pub ids: Vec<String>,
}

/// Why a persisted read-filter could not be used.
#[derive(Debug, PartialEq, Eq, Structural)]
pub enum ReadFilterError {
    /// The persisted read-filter is of another kind than the one configured.
    KindMismatch { expected: Kind, found: Kind },
}

impl ReadFilter {
    /// An empty read-filter of the given kind.
    pub fn new(kind: Kind) -> (r: ReadFilter)
        ensures
            rf_kind(r@) == kind,
            rf_ids(r@) == Seq::<Seq<char>>::empty(),
            rf_wf(r@),
    {
        match kind {
            Kind::NewerThan => ReadFilter::NewerThan(ReadFilterNewer::new()),
            Kind::NotPresent => {
                let f = ReadFilterNotPresent::new();
                ReadFilter::NotPresent(f)
            },
        }
    }

    pub fn kind(&self) -> (r: Kind)
        ensures
            r == rf_kind(self@),
    {
        match self {
            ReadFilter::NewerThan(_) => Kind::NewerThan,
            ReadFilter::NotPresent(_) => Kind::NotPresent,
        }
    }

    /// Whether the state is well-formed; it always is.
    pub fn is_wf(&self) -> (r: bool)
        ensures
            r,
            rf_wf(self@),
    {
        match self {
            ReadFilter::NewerThan(_) => true,
            ReadFilter::NotPresent(f) => f.is_wf(),
        }
    }

    /// The id marked most recently, which sources may use to narrow their queries.
    pub fn last_read(&self) -> (r: Option<String>)
        ensures
            opt_view(r) == (if rf_ids(self@).len() == 0 { None } else { Some(rf_ids(self@).last()) }),
    {
        match self {
            ReadFilter::NewerThan(f) => f.last_read(),
            ReadFilter::NotPresent(f) => f.last_read(),
        }
    }

    /// Removes the entries already read from `entries`, keeping the order of the rest.
    pub fn remove_read(&self, entries: &mut Vec<Entry>)
        ensures
            entries_view(final(entries)@) == rf_unread(self@, entries_view(old(entries)@)),
    {
        match self {
            ReadFilter::NewerThan(f) => f.remove_read_from(entries),
            ReadFilter::NotPresent(f) => f.remove_read_from(entries),
        }
    }

    /// Marks `id` as read.
    pub fn mark_as_read(&mut self, id: &str)
        ensures
            final(self)@ == rf_marked(old(self)@, id@),
            rf_wf(final(self)@),
    {
        match self {
            ReadFilter::NewerThan(f) => f.mark_as_read(id),
            ReadFilter::NotPresent(f) => {
                f.mark_as_read(id);
                f.is_wf();
            },
        }
    }

    /// The persisted form of the state.
    pub fn to_saved(&self) -> (r: SavedReadFilter)
        ensures
            r.kind == rf_kind(self@),
            strings_view(r.ids@) == rf_ids(self@),
    {
        match self {
            ReadFilter::NewerThan(f) => {
                let mut ids: Vec<String> = Vec::new();
                if let Some(id) = &f.last_read_id {
                    ids.push(id.clone());
                }
                assert(strings_view(ids@) =~= rf_ids(self@));
                SavedReadFilter { kind: Kind::NewerThan, ids }
            },
            ReadFilter::NotPresent(f) => {
                let ids = f.ids();
                SavedReadFilter { kind: Kind::NotPresent, ids }
            },
        }
    }

    /// Restores the read-filter of kind `expected` from its persisted form, or starts an
    /// empty one if nothing was persisted. A persisted filter of another kind is an error
    /// and is never converted.
    pub fn restore(expected: Kind, saved: Option<SavedReadFilter>) -> (r: Result<ReadFilter, ReadFilterError>)
        ensures
            match saved {
                None => r matches Ok(f) && rf_kind(f@) == expected && rf_ids(f@).len() == 0,
                Some(s) => if s.kind != expected {
                    r == Err::<ReadFilter, ReadFilterError>(ReadFilterError::KindMismatch { expected, found: s.kind })
                } else {
                    r matches Ok(f) && rf_kind(f@) == expected && match f@ {
                        ReadFilterView::NotPresent(ids) => ids == marked_all(Seq::empty(), strings_view(s.ids@)),
                        ReadFilterView::NewerThan(last) => last == (if s.ids@.len() == 0 { None } else { Some(s.ids@.last()@) }),
                    }
                },
            },
    {
        let saved = match saved {
            None => {
                return Ok(ReadFilter::new(expected));
            },
            Some(s) => s,
        };
        if saved.kind != expected {
            return Err(ReadFilterError::KindMismatch { expected, found: saved.kind });
        }
        match expected {
            Kind::NewerThan => {
                let n = saved.ids.len();
                let mut f = ReadFilterNewer::new();
                if n > 0 {
                    f.mark_as_read(saved.ids[n - 1].as_str());
                }
                Ok(ReadFilter::NewerThan(f))
            },
            Kind::NotPresent => {
                let mut f = ReadFilterNotPresent::new();
                let ghost all = strings_view(saved.ids@);
                let mut i: usize = 0;
                while i < saved.ids.len()
                    invariant
                        i <= saved.ids@.len(),
                        all == strings_view(saved.ids@),
                        f@ == marked_all(Seq::empty(), all.take(i as int)),
                    decreases saved.ids.len() - i,
                {
                    f.mark_as_read(saved.ids[i].as_str());
                    assert(all.take(i + 1).drop_last() =~= all.take(i as int));
                    i = i + 1;
                }
                assert(all.take(i as int) =~= all);
                Ok(ReadFilter::NotPresent(f))
            },
        }
    }
}

impl ReadFilterNotPresent {
    /// Marks each of `ids` as read, in order. Starting from an empty filter with
    /// distinct ids, this keeps exactly the most recent ones within the cap, oldest first.
    pub fn mark_all_as_read(&mut self, ids: &Vec<String>)
        ensures
            final(self)@ == marked_all(old(self)@, strings_view(ids@)),
            old(self)@.len() == 0 && strings_view(ids@).no_duplicates() ==> final(self)@ == strings_view(ids@).subrange(
                if ids@.len() > NOT_PRESENT_CAP { ids@.len() - NOT_PRESENT_CAP } else { 0 },
                ids@.len() as int,
            ),
    {
        let ghost start = self@;
        let ghost all = strings_view(ids@);
        let mut i: usize = 0;
        assert(all.take(0) =~= Seq::<Seq<char>>::empty());
        while i < ids.len()
            invariant
                i <= ids@.len(),
                all == strings_view(ids@),
                self@ == marked_all(start, all.take(i as int)),
            decreases ids.len() - i,
        {
            self.mark_as_read(ids[i].as_str());
            assert(all.take(i + 1).drop_last() =~= all.take(i as int));
            i = i + 1;
        }
        assert(all.take(i as int) =~= all);
        proof {
            if start.len() == 0 && all.no_duplicates() {
                assert(start =~= Seq::<Seq<char>>::empty());
                lemma_not_present_keeps_most_recent(all);
            }
        }
    }

    /// The remembered ids, oldest first.
    pub fn ids(&self) -> (r: Vec<String>)
        ensures
            strings_view(r@) == self@,
    {
        crate::entry::clone_strings(&self.read_list)
    }
}

/// The ids carried by the entries of `es`, in order; entries without an id add none.
pub open spec fn ids_of(es: Seq<EntryView>) -> Seq<Seq<char>>
    decreases es.len(),
{
    if es.len() == 0 {
        Seq::empty()
    } else {
        let rest = ids_of(es.drop_last());
        match es.last().id {
            Some(id) => rest.push(id),
            None => rest,
        }
    }
}

proof fn lemma_marked_contains(ids: Seq<Seq<char>>, id: Seq<char>)
    ensures
        marked(ids, id).contains(id),
        marked(ids, id).len() <= ids.len() + 1,
        ids.len() < NOT_PRESENT_CAP ==> forall|x: Seq<char>| ids.contains(x) ==> #[trigger] marked(ids, id).contains(x),
{
    let m = marked(ids, id);
    if !ids.contains(id) {
        assert(m[m.len() - 1] == id);
        if ids.len() < NOT_PRESENT_CAP {
            assert forall|x: Seq<char>| ids.contains(x) implies #[trigger] m.contains(x) by {
                let k = choose|k: int| 0 <= k < ids.len() && ids[k] == x;
                assert(m[k] == x);
            }
        }
    }
}

/// Marking an id as read twice leaves the same state as marking it once.
pub proof fn lemma_mark_as_read_idempotent(rf: ReadFilterView, id: Seq<char>)
    ensures
        rf_marked(rf_marked(rf, id), id) == rf_marked(rf, id),
{
    match rf {
        ReadFilterView::NewerThan(_) => {},
        ReadFilterView::NotPresent(ids) => {
            lemma_marked_contains(ids, id);
        },
    }
}

/// Once an id is marked as read, an entry with that id is removed as read.
pub proof fn lemma_marked_entry_is_removed(rf: ReadFilterView, id: Seq<char>, e: EntryView)
    requires
        e.id == Some(id),
    ensures
        rf_unread(rf_marked(rf, id), seq![e]) == Seq::<EntryView>::empty(),
{
    let es = seq![e];
    match rf {
        ReadFilterView::NewerThan(_) => {
            assert(es[0] == e);
            assert(es.skip(1) =~= Seq::<EntryView>::empty());
        },
        ReadFilterView::NotPresent(ids) => {
            lemma_marked_contains(ids, id);
            assert(es.drop_last() =~= Seq::<EntryView>::empty());
            assert(es.last() == e);
            assert(unread_in(marked(ids, id), es.drop_last()) =~= Seq::<EntryView>::empty());
            assert(read_in(marked(ids, id), e));
        },
    }
}

/// A not-present filter fed distinct ids never holds more than the cap, and holds
/// exactly the most recent ones, oldest first.
pub proof fn lemma_not_present_keeps_most_recent(ids: Seq<Seq<char>>)
    requires
        ids.no_duplicates(),
    ensures
        marked_all(Seq::empty(), ids) == ids.subrange(
            if ids.len() > NOT_PRESENT_CAP { ids.len() - NOT_PRESENT_CAP } else { 0 },
            ids.len() as int,
        ),
        marked_all(Seq::empty(), ids).len() <= NOT_PRESENT_CAP,
    decreases ids.len(),
{
    let n = ids.len() as int;
    if n > 0 {
        let prev_ids = ids.drop_last();
        assert forall|a: int, b: int| 0 <= a < b < prev_ids.len() implies prev_ids[a] != prev_ids[b] by {
            assert(prev_ids[a] == ids[a] && prev_ids[b] == ids[b]);
        }
        lemma_not_present_keeps_most_recent(prev_ids);
        let lo_prev = if n - 1 > NOT_PRESENT_CAP { n - 1 - NOT_PRESENT_CAP } else { 0 };
        let prev = marked_all(Seq::empty(), prev_ids);
        assert(prev == ids.subrange(lo_prev, n - 1));
        let last = ids.last();
        assert(!prev.contains(last)) by {
            if prev.contains(last) {
                let k = choose|k: int| 0 <= k < prev.len() && prev[k] == last;
                assert(ids[lo_prev + k] == ids[n - 1]);
            }
        }
        if prev.len() >= NOT_PRESENT_CAP {
            assert(prev.drop_first().push(last) =~= ids.subrange(n - NOT_PRESENT_CAP, n));
        } else {
            assert(prev.push(last) =~= ids.subrange(0, n));
        }
    } else {
        assert(ids.subrange(0, 0) =~= Seq::<Seq<char>>::empty());
    }
}

proof fn lemma_unread_in_props(ids: Seq<Seq<char>>, es: Seq<EntryView>)
    ensures
        unread_in(ids, es).len() <= es.len(),
        forall|k: int| 0 <= k < unread_in(ids, es).len() ==> !read_in(ids, #[trigger] unread_in(ids, es)[k]),
    decreases es.len(),
{
    if es.len() > 0 {
        lemma_unread_in_props(ids, es.drop_last());
    }
}

proof fn lemma_ids_of_props(es: Seq<EntryView>)
    ensures
        ids_of(es).len() <= es.len(),
        forall|j: int| 0 <= j < es.len() && (#[trigger] es[j]).id is Some ==> ids_of(es).contains(es[j].id->0),
    decreases es.len(),
{
    if es.len() > 0 {
        let rest = es.drop_last();
        lemma_ids_of_props(rest);
        let r = ids_of(es);
        assert forall|j: int| 0 <= j < es.len() && (#[trigger] es[j]).id is Some implies r.contains(es[j].id->0) by {
            if j < es.len() - 1 {
                assert(rest[j] == es[j]);
                let k = choose|k: int| 0 <= k < ids_of(rest).len() && ids_of(rest)[k] == es[j].id->0;
                assert(r[k] == es[j].id->0);
            } else {
                assert(r[r.len() - 1] == es[j].id->0);
            }
        }
    }
}

proof fn lemma_marked_all_keeps(ids: Seq<Seq<char>>, new_ids: Seq<Seq<char>>)
    requires
        ids.len() + new_ids.len() <= NOT_PRESENT_CAP,
    ensures
        marked_all(ids, new_ids).len() <= ids.len() + new_ids.len(),
        forall|x: Seq<char>| ids.contains(x) ==> #[trigger] marked_all(ids, new_ids).contains(x),
        forall|k: int| 0 <= k < new_ids.len() ==> marked_all(ids, new_ids).contains(#[trigger] new_ids[k]),
    decreases new_ids.len(),
{
    if new_ids.len() > 0 {
        let rest = new_ids.drop_last();
        lemma_marked_all_keeps(ids, rest);
        let prev = marked_all(ids, rest);
        lemma_marked_contains(prev, new_ids.last());
        assert forall|k: int| 0 <= k < new_ids.len() implies marked_all(ids, new_ids).contains(#[trigger] new_ids[k]) by {
            if k < new_ids.len() - 1 {
                assert(rest[k] == new_ids[k]);
                assert(prev.contains(rest[k]));
            }
        }
    }
}

/// Across two ticks of a not-present filter, no entry let through on the second tick
/// carries the id of one let through (and then marked as read) on the first, as long
/// as nothing had to be forgotten in between.
pub proof fn lemma_no_repeat_across_ticks(
    ids: Seq<Seq<char>>,
    first: Seq<EntryView>,
    second: Seq<EntryView>,
)
    requires
        ids.len() + first.len() <= NOT_PRESENT_CAP,
    ensures
        ({
            let out1 = unread_in(ids, first);
            let out2 = unread_in(marked_all(ids, ids_of(out1)), second);
            forall|i: int, j: int|
                0 <= i < out2.len() && 0 <= j < out1.len() && (#[trigger] out1[j]).id is Some
                    ==> (#[trigger] out2[i]).id != out1[j].id
        }),
{
    let out1 = unread_in(ids, first);
    let after = marked_all(ids, ids_of(out1));
    let out2 = unread_in(after, second);
    lemma_unread_in_props(ids, first);
    lemma_ids_of_props(out1);
    lemma_marked_all_keeps(ids, ids_of(out1));
    lemma_unread_in_props(after, second);
    assert forall|i: int, j: int|
        0 <= i < out2.len() && 0 <= j < out1.len() && (#[trigger] out1[j]).id is Some
            implies (#[trigger] out2[i]).id != out1[j].id by {
        let x = out1[j].id->0;
        let k = choose|k: int| 0 <= k < ids_of(out1).len() && ids_of(out1)[k] == x;
        assert(after.contains(ids_of(out1)[k]));
        assert(!read_in(after, out2[i]));
    }
}

} // verus!
