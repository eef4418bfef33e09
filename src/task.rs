//! Tasks: one source, a pipeline of actions, and the state kept between ticks.

use vstd::prelude::*;
use crate::entry::{Entry, EntryView, entries_view, opt_view};
use crate::read_filter::{ReadFilter, ReadFilterView, ids_of, rf_marked, rf_unread};
use crate::regex_action::{Find, Regex, find_kept};
use crate::sink::{MessageId, Sink, SinkError};
use crate::source::{Source, SourceError};
use crate::transform::{EntryKind, Feed, FeedItemView, Transform, TransformError, fan_out, feed_entries, feed_items_of, transform_spec};

verus! {

/// The message id recorded for `k` in `pairs`; later records win.
pub open spec fn lookup(pairs: Seq<(Seq<char>, i64)>, k: Seq<char>) -> Option<i64>
    decreases pairs.len(),
{
    if pairs.len() == 0 {
        None
    } else if pairs.last().0 == k {
        Some(pairs.last().1)
    } else {
        lookup(pairs.drop_last(), k)
    }
}

/// Which sink message each entry was delivered as, so that replies can be threaded.
#[derive(Debug)]
pub struct EntryToMsgMap {
    pairs: Vec<(String, MessageId)>,
}

impl EntryToMsgMap {
    pub closed spec fn spec_pairs(&self) -> Seq<(Seq<char>, i64)> {
        Seq::new(self.pairs@.len(), |i: int| (self.pairs@[i].0@, self.pairs@[i].1.0))
    }

    /// The message id recorded for entry id `k`.
    pub open spec fn spec_get(&self, k: Seq<char>) -> Option<i64> {
        lookup(self.spec_pairs(), k)
    }

    pub proof fn lemma_empty_pairs(&self)
        requires
            forall|k: Seq<char>| self.spec_get(k) is None,
        ensures
            self.spec_pairs() == Seq::<(Seq<char>, i64)>::empty(),
    {
        if self.spec_pairs().len() > 0 {
            assert(self.spec_get(self.spec_pairs().last().0) is Some);
        }
    }

    /// A map with nothing recorded.
    pub fn new() -> (r: EntryToMsgMap)
        ensures
            forall|k: Seq<char>| r.spec_get(k) is None,
    {
        let r = EntryToMsgMap { pairs: Vec::new() };
        assert(r.spec_pairs() =~= Seq::<(Seq<char>, i64)>::empty());
        r
    }

    /// The message id recorded for entry id `k`.
    pub fn get(&self, k: &str) -> (r: Option<MessageId>)
        ensures
            match r {
                Some(m) => self.spec_get(k@) == Some(m.0),
                None => self.spec_get(k@) is None,
            },
    {
        let key = String::from_str(k);
        let ghost ps = self.spec_pairs();
        let mut i: usize = self.pairs.len();
        assert(ps.take(i as int) =~= ps);
        while i > 0
            invariant
                i <= self.pairs@.len(),
                key@ == k@,
                ps == self.spec_pairs(),
                lookup(ps, k@) == lookup(ps.take(i as int), k@),
            decreases i,
        {
            let ghost t = ps.take(i as int);
            assert(t.last() == ps[i - 1]);
            assert(ps[i - 1] == (self.pairs@[i - 1].0@, self.pairs@[i - 1].1.0));
            let same = self.pairs[i - 1].0 == key;
            if same {
                assert(t.last().0 == k@);
                assert(lookup(t, k@) == Some(t.last().1));
                return Some(self.pairs[i - 1].1);
            }
            assert(t.last().0 != k@);
            assert(t.drop_last() =~= ps.take(i - 1));
            i = i - 1;
        }
        None
    }

    /// Records that entry `k` was delivered as message `m`.
    pub fn insert(&mut self, k: String, m: MessageId)
        ensures
            final(self).spec_pairs() == old(self).spec_pairs().push((k@, m.0)),
            final(self).spec_get(k@) == Some(m.0),
            forall|k2: Seq<char>| k2 != k@ ==> final(self).spec_get(k2) == old(self).spec_get(k2),
    {
        let ghost before = self.spec_pairs();
        self.pairs.push((k, m));
        assert(self.spec_pairs() =~= before.push((k@, m.0)));
        assert(self.spec_pairs().drop_last() =~= before);
    }

    /// Every record, oldest first.
    pub fn to_pairs(&self) -> (r: Vec<(String, MessageId)>)
        ensures
            Seq::new(r@.len(), |i: int| (r@[i].0@, r@[i].1.0)) == self.spec_pairs(),
    {
        let mut r: Vec<(String, MessageId)> = Vec::new();
        let mut i: usize = 0;
        while i < self.pairs.len()
            invariant
                i <= self.pairs@.len(),
                r@.len() == i,
                forall|j: int| 0 <= j < i ==> (#[trigger] r@[j]).0@ == self.pairs@[j].0@ && r@[j].1 == self.pairs@[j].1,
            decreases self.pairs.len() - i,
        {
            r.push((self.pairs[i].0.clone(), self.pairs[i].1));
            i = i + 1;
        }
        assert(Seq::new(r@.len(), |i: int| (r@[i].0@, r@[i].1.0)) =~= self.spec_pairs());
        r
    }
}

/// A filter that drops entries.
#[derive(Debug)]
pub enum Filter {
    Find(Regex<Find>),
}

/// One step of a task's pipeline.
#[derive(Debug)]
pub enum Action<S> {
    Filter(Filter),
    Transform(Transform),
    Sink(S),
}

/// The entries of `es` that the read-filter, if any, lets through.
pub open spec fn unread_opt(rf: Option<ReadFilterView>, es: Seq<EntryView>) -> Seq<EntryView> {
    match rf {
        Some(f) => rf_unread(f, es),
        None => es,
    }
}

/// What one action makes of the entries. A sink is handed only the entries the
/// read-filter lets through, and passes those on.
pub open spec fn step<S>(a: Action<S>, es: Seq<EntryView>, rf: Option<ReadFilterView>) -> Seq<EntryView> {
    match a {
        Action::Filter(Filter::Find(re)) => find_kept(re.spec_pattern(), re.spec_action().in_field, es),
        Action::Transform(t) => fan_out(t, es),
        Action::Sink(_) => unread_opt(rf, es),
    }
}

/// What the actions, in order, make of the entries, under the read-filter `rf`.
pub open spec fn pipeline<S>(actions: Seq<Action<S>>, es: Seq<EntryView>, rf: Option<ReadFilterView>) -> Seq<EntryView>
    decreases actions.len(),
{
    if actions.len() == 0 {
        es
    } else {
        pipeline(actions.drop_first(), step(actions[0], es, rf), rf)
    }
}

/// The message id an entry should be threaded under: the one recorded for the entry
/// it replies to.
pub open spec fn reply_target(map: Option<EntryToMsgMap>, e: EntryView) -> Option<i64> {
    match (map, e.reply_to) {
        (Some(m), Some(r)) => m.spec_get(r),
        _ => None,
    }
}

/// The message id that `e` should be sent as a reply to, if any.
pub fn reply_to_lookup(map: &Option<EntryToMsgMap>, e: &Entry) -> (r: Option<MessageId>)
    ensures
        match r {
            Some(m) => reply_target(*map, e@) == Some(m.0),
            None => reply_target(*map, e@) is None,
        },
{
    match (map, &e.reply_to) {
        (Some(m), Some(r)) => m.get(r.as_str()),
        _ => None,
    }
}

/// Sends every entry's message in order, threaded under the message its entry replies
/// to, and records the returned message ids.
fn send_all<S: Sink>(sink: &S, entries: &Vec<Entry>, tag: &Option<String>, map: &mut Option<EntryToMsgMap>) -> (r: Result<(), SinkError>)
    ensures
        (*old(map)) is Some <==> (*final(map)) is Some,
{
    let mut i: usize = 0;
    while i < entries.len()
        invariant
            i <= entries@.len(),
            (*old(map)) is Some <==> (*map) is Some,
        decreases entries.len() - i,
    {
        let e = &entries[i];
        let reply = reply_to_lookup(map, e);
        let reply_ref = match &reply {
            Some(m) => Some(m),
            None => None,
        };
        let tag_ref = match tag {
            Some(t) => Some(t.as_str()),
            None => None,
        };
        let sent = sink.send(&e.msg, reply_ref, tag_ref);
        match sent {
            Ok(Some(msg_id)) => {
                match (&e.id, map.as_mut()) {
                    (Some(id), Some(m)) => m.insert(id.clone(), msg_id),
                    _ => {},
                }
            },
            Ok(None) => {},
            Err(err) => {
                return Err(err);
            },
        }
        i = i + 1;
    }
    Ok(())
}

/// The position of the last sink action, or -1 when there is none.
pub open spec fn last_sink<S>(acts: Seq<Action<S>>) -> int
    decreases acts.len(),
{
    if acts.len() == 0 {
        -1
    } else if acts.last() is Sink {
        acts.len() - 1
    } else {
        last_sink(acts.drop_last())
    }
}

/// Whether some action is a sink.
pub open spec fn has_sink<S>(acts: Seq<Action<S>>) -> bool {
    exists|i: int| 0 <= i < acts.len() && #[trigger] acts[i] is Sink
}

proof fn lemma_last_sink<S>(acts: Seq<Action<S>>)
    ensures
        -1 <= last_sink(acts) < acts.len(),
        last_sink(acts) >= 0 ==> acts[last_sink(acts)] is Sink,
        forall|j: int| last_sink(acts) < j < acts.len() ==> !(#[trigger] acts[j] is Sink),
        last_sink(acts) >= 0 <==> has_sink(acts),
    decreases acts.len(),
{
    if acts.len() > 0 {
        let rest = acts.drop_last();
        lemma_last_sink(rest);
        if !(acts.last() is Sink) {
            assert forall|j: int| last_sink(acts) < j < acts.len() implies !(#[trigger] acts[j] is Sink) by {
                if j < acts.len() - 1 {
                    assert(rest[j] == acts[j]);
                }
            }
            if has_sink(acts) {
                let w = choose|w: int| 0 <= w < acts.len() && #[trigger] acts[w] is Sink;
                assert(rest[w] == acts[w]);
            }
            if has_sink(rest) {
                let w = choose|w: int| 0 <= w < rest.len() && #[trigger] rest[w] is Sink;
                assert(acts[w] == rest[w]);
            }
        } else {
            assert(acts[acts.len() - 1] is Sink);
        }
    }
}

proof fn lemma_pipeline_push<S>(a: Seq<Action<S>>, x: Action<S>, es: Seq<EntryView>, rf: Option<ReadFilterView>)
    ensures
        pipeline(a.push(x), es, rf) == step(x, pipeline(a, es, rf), rf),
    decreases a.len(),
{
    if a.len() == 0 {
        let ax = a.push(x);
        assert(ax.drop_first() =~= Seq::<Action<S>>::empty());
        assert(ax[0] == x);
        assert(pipeline(a, es, rf) == es);
        assert(pipeline(ax.drop_first(), step(x, es, rf), rf) == step(x, es, rf));
        assert(pipeline(ax, es, rf) == pipeline(ax.drop_first(), step(ax[0], es, rf), rf));
    } else {
        let ax = a.push(x);
        assert(ax.drop_first() =~= a.drop_first().push(x));
        assert(ax[0] == a[0]);
        lemma_pipeline_push(a.drop_first(), x, step(a[0], es, rf), rf);
        assert(pipeline(ax, es, rf) == pipeline(ax.drop_first(), step(ax[0], es, rf), rf));
        assert(pipeline(a, es, rf) == pipeline(a.drop_first(), step(a[0], es, rf), rf));
    }
}

/// The optional read-filter state after each of `ids` was marked as read.
pub open spec fn rf_mark_opt(rf: Option<ReadFilterView>, ids: Seq<Seq<char>>) -> Option<ReadFilterView> {
    match rf {
        Some(f) => Some(rf_marked_all(f, ids)),
        None => None,
    }
}

/// The entries handed to the last sink action.
pub open spec fn delivered<S>(acts: Seq<Action<S>>, es: Seq<EntryView>, rf: Option<ReadFilterView>) -> Seq<EntryView> {
    pipeline(acts.take(last_sink(acts) + 1), es, rf)
}

/// Sends every entry's message in order, threaded under the message its entry replies
/// to, and right after each delivery marks the entry as read: through the read-filter
/// if there is one, else on the source's side. A failure stops at that entry; the
/// entries before it stay marked.
fn send_and_mark<Src: Source, S: Sink>(
    sink: &S,
    entries: &Vec<Entry>,
    tag: &Option<String>,
    map: &mut Option<EntryToMsgMap>,
    rf: &mut Option<ReadFilter>,
    source: &mut Option<Src>,
) -> (r: Result<(), TaskError>)
    ensures
        (*old(map)) is Some <==> (*final(map)) is Some,
        (*old(rf)) is Some <==> (*final(rf)) is Some,
        r is Ok ==> opt_rf_view(*final(rf)) == rf_mark_opt(opt_rf_view(*old(rf)), ids_of(entries_view(entries@))),
        r is Err ==> exists|k: int| 0 <= k <= entries@.len()
            && opt_rf_view(*final(rf)) == rf_mark_opt(opt_rf_view(*old(rf)), ids_of(#[trigger] entries_view(entries@).take(k))),
        (*old(rf)) is Some && r is Err ==> r matches Err(TaskError::Sink(_)),
{
    let ghost es = entries_view(entries@);
    let ghost rf0 = opt_rf_view(*rf);
    let mut i: usize = 0;
    assert(es.take(0) =~= Seq::<EntryView>::empty());
    while i < entries.len()
        invariant
            i <= entries@.len(),
            es == entries_view(entries@),
            (*old(map)) is Some <==> (*map) is Some,
            rf0 == opt_rf_view(*old(rf)),
            (*old(rf)) is Some <==> (*rf) is Some,
            opt_rf_view(*rf) == rf_mark_opt(rf0, ids_of(es.take(i as int))),
        decreases entries.len() - i,
    {
        let e = &entries[i];
        let reply = reply_to_lookup(map, e);
        let reply_ref = match &reply {
            Some(m) => Some(m),
            None => None,
        };
        let tag_ref = match tag {
            Some(t) => Some(t.as_str()),
            None => None,
        };
        match sink.send(&e.msg, reply_ref, tag_ref) {
            Ok(Some(msg_id)) => {
                match (&e.id, map.as_mut()) {
                    (Some(id), Some(m)) => m.insert(id.clone(), msg_id),
                    _ => {},
                }
            },
            Ok(None) => {},
            Err(err) => {
                assert(es.take(i as int) == es.take(i as int));
                return Err(TaskError::Sink(err));
            },
        }
        proof {
            assert(es.take(i + 1).drop_last() =~= es.take(i as int));
            assert(es.take(i + 1).last() == es[i as int]);
        }
        let ghost prev = ids_of(es.take(i as int));
        match &e.id {
            Some(id) => {
                assert(ids_of(es.take(i + 1)) == prev.push(id@));
                assert(prev.push(id@).drop_last() =~= prev);
                match rf {
                    Some(f) => {
                        f.mark_as_read(id.as_str());
                    },
                    None => {
                        match source {
                            Some(src) => {
                                match src.mark_as_read(id.as_str()) {
                                    Ok(()) => {},
                                    Err(err) => {
                                        return Err(TaskError::Source(err));
                                    },
                                }
                            },
                            None => {},
                        }
                    },
                }
            },
            None => {
                assert(ids_of(es.take(i + 1)) == prev);
            },
        }
        i = i + 1;
    }
    assert(es.take(i as int) =~= es);
    Ok(())
}

/// The position of the last sink action, if any.
fn last_sink_index<S>(actions: &Vec<Action<S>>) -> (r: Option<usize>)
    ensures
        match r {
            Some(k) => k == last_sink(actions@),
            None => last_sink(actions@) == -1,
        },
{
    let ghost acts = actions@;
    let mut n: usize = actions.len();
    assert(acts.take(n as int) =~= acts);
    while n > 0
        invariant
            n <= acts.len(),
            acts == actions@,
            last_sink(acts) == last_sink(acts.take(n as int)),
        decreases n,
    {
        let ghost t = acts.take(n as int);
        assert(t.last() == acts[n - 1]);
        if let Action::Sink(_) = &actions[n - 1] {
            return Some(n - 1);
        }
        assert(t.drop_last() =~= acts.take(n - 1));
        n = n - 1;
    }
    None
}

/// Runs the actions in order over `entries`, under the read-filter as it was when the
/// run began. Transform failures drop the entry they failed on and are returned
/// alongside. A sink is handed only the entries the read-filter lets through; the last
/// sink marks each entry as read right after delivering it. A failure of a sink or of
/// marking stops the run; without a sink action nothing can fail.
pub fn run_actions<Src: Source, S: Sink>(
    actions: &Vec<Action<S>>,
    entries: Vec<Entry>,
    rf: &mut Option<ReadFilter>,
    source: &mut Option<Src>,
    tag: &Option<String>,
    map: &mut Option<EntryToMsgMap>,
) -> (r: Result<(Vec<Entry>, Vec<TransformError>), TaskError>)
    ensures
        r matches Ok(x) ==> entries_view(x.0@) == pipeline(actions@, entries_view(entries@), opt_rf_view(*old(rf))),
        r is Ok ==> opt_rf_view(*final(rf)) == if has_sink(actions@) {
            rf_mark_opt(opt_rf_view(*old(rf)), ids_of(delivered(actions@, entries_view(entries@), opt_rf_view(*old(rf)))))
        } else {
            opt_rf_view(*old(rf))
        },
        r is Err ==> exists|k: int| 0 <= k <= delivered(actions@, entries_view(entries@), opt_rf_view(*old(rf))).len()
            && opt_rf_view(*final(rf)) == rf_mark_opt(opt_rf_view(*old(rf)),
                ids_of(#[trigger] delivered(actions@, entries_view(entries@), opt_rf_view(*old(rf))).take(k))),
        !has_sink(actions@) ==> r is Ok,
        (*old(rf)) is Some && r is Err ==> r matches Err(TaskError::Sink(_)),
        (*old(map)) is Some <==> (*final(map)) is Some,
        (*old(rf)) is Some <==> (*final(rf)) is Some,
{
    let ghost acts = actions@;
    let ghost es0 = entries_view(entries@);
    let ghost rf0 = opt_rf_view(*rf);
    proof {
        lemma_last_sink(acts);
    }
    let last = last_sink_index(actions);
    let mut work = entries;
    let mut errors: Vec<TransformError> = Vec::new();
    let mut i: usize = 0;
    assert(acts.take(0) =~= Seq::<Action<S>>::empty());
    while i < actions.len()
        invariant
            i <= actions@.len(),
            acts == actions@,
            rf0 == opt_rf_view(*old(rf)),
            es0 == entries_view(entries@),
            -1 <= last_sink(acts) < acts.len(),
            last_sink(acts) >= 0 ==> acts[last_sink(acts)] is Sink,
            forall|j: int| last_sink(acts) < j < acts.len() ==> !(#[trigger] acts[j] is Sink),
            last_sink(acts) >= 0 <==> has_sink(acts),
            match last {
                Some(k) => k == last_sink(acts),
                None => last_sink(acts) == -1,
            },
            entries_view(work@) == pipeline(acts.take(i as int), es0, rf0),
            opt_rf_view(*rf) == if i > last_sink(acts) && last_sink(acts) >= 0 {
                rf_mark_opt(rf0, ids_of(delivered(acts, es0, rf0)))
            } else {
                rf0
            },
            (*old(map)) is Some <==> (*map) is Some,
            (*old(rf)) is Some <==> (*rf) is Some,
        decreases actions.len() - i,
    {
        let ghost cur = entries_view(work@);
        proof {
            assert(acts.take(i + 1) =~= acts.take(i as int).push(acts[i as int]));
            lemma_pipeline_push(acts.take(i as int), acts[i as int], es0, rf0);
        }
        match &actions[i] {
            Action::Filter(Filter::Find(re)) => {
                re.filter(&mut work);
            },
            Action::Transform(t) => {
                let (out, mut errs) = t.transform_all(work);
                work = out;
                errors.append(&mut errs);
            },
            Action::Sink(s) => {
                assert(acts[i as int] is Sink);
                assert(i <= last_sink(acts));
                assert(opt_rf_view(*rf) == rf0);
                match rf {
                    Some(f) => f.remove_read(&mut work),
                    None => {},
                }
                let is_last = match last {
                    Some(k) => k == i,
                    None => false,
                };
                if is_last {
                    assert(delivered(acts, es0, rf0) == entries_view(work@));
                    match send_and_mark(s, &work, tag, map, rf, source) {
                        Ok(()) => {},
                        Err(e) => {
                            proof {
                                let k = choose|k: int| 0 <= k <= work@.len()
                                    && opt_rf_view(*rf) == rf_mark_opt(rf0, ids_of(#[trigger] entries_view(work@).take(k)));
                                assert(delivered(acts, es0, rf0).take(k) == entries_view(work@).take(k));
                                assert(0 <= k <= delivered(actions@, entries_view(entries@), opt_rf_view(*old(rf))).len() && opt_rf_view(*rf)
                                    == rf_mark_opt(opt_rf_view(*old(rf)), ids_of(delivered(actions@, entries_view(entries@), opt_rf_view(*old(rf))).take(k))));
                            }
                            return Err(e);
                        },
                    }
                } else {
                    match send_all(s, &work, tag, map) {
                        Ok(()) => {},
                        Err(e) => {
                            proof {
                                let d = delivered(acts, es0, rf0);
                                assert(d.take(0) =~= Seq::<EntryView>::empty());
                                assert(ids_of(d.take(0)) =~= Seq::<Seq<char>>::empty());
                                match rf0 {
                                    Some(f) => {
                                        assert(rf_marked_all(f, ids_of(d.take(0))) == f);
                                    },
                                    None => {},
                                }
                                assert(opt_rf_view(*rf) == rf_mark_opt(rf0, ids_of(d.take(0))));
                                assert(d == delivered(actions@, entries_view(entries@), opt_rf_view(*old(rf))));
                            }
                            return Err(TaskError::Sink(e));
                        },
                    }
                }
            },
        }
        assert(entries_view(work@) == step(acts[i as int], cur, rf0));
        i = i + 1;
    }
    assert(acts.take(i as int) =~= acts);
    Ok((work, errors))
}

/// The abstract state of an optional read-filter.
pub open spec fn opt_rf_view(rf: Option<ReadFilter>) -> Option<ReadFilterView> {
    match rf {
        Some(f) => Some(f@),
        None => None,
    }
}

pub open spec fn opt_actions_view<S>(a: Option<Vec<Action<S>>>) -> Option<Seq<Action<S>>> {
    match a {
        Some(v) => Some(v@),
        None => None,
    }
}

/// `rf` after each of `ids` was marked as read, in order.
pub open spec fn rf_marked_all(rf: ReadFilterView, ids: Seq<Seq<char>>) -> ReadFilterView
    decreases ids.len(),
{
    if ids.len() == 0 {
        rf
    } else {
        rf_marked(rf_marked_all(rf, ids.drop_last()), ids.last())
    }
}

/// The entries a tick marks as read: those handed to the last sink action, or, without
/// a sink action, all that come out of the actions.
pub open spec fn marked_in_tick<S>(f: ReadFilterView, actions: Option<Seq<Action<S>>>, fetched: Seq<EntryView>) -> Seq<EntryView> {
    let unread = rf_unread(f, fetched);
    match actions {
        Some(a) => if has_sink(a) { delivered(a, unread, Some(f)) } else { pipeline(a, unread, Some(f)) },
        None => unread,
    }
}

/// What one tick does to a read-filter when it succeeds: the entries it marks, in order.
pub open spec fn rf_after_tick<S>(rf: Option<ReadFilterView>, actions: Option<Seq<Action<S>>>, fetched: Seq<EntryView>) -> Option<ReadFilterView> {
    match rf {
        Some(f) => Some(rf_marked_all(f, ids_of(marked_in_tick(f, actions, fetched)))),
        None => None,
    }
}

/// Why a tick failed.
#[derive(Debug)]
pub enum TaskError {
    Source(SourceError),
    Sink(SinkError),
}

/// What the runner does after a tick.
#[derive(Debug, Clone, Copy, PartialEq, Eq, Structural)]
pub enum TickDecision {
    /// Sleep until the next tick.
    Continue,
    /// Stop the task: the failure is fatal.
    Stop,
}

/// After a successful tick, or a transient source failure, the task sleeps and runs
/// again; any other failure stops it.
pub fn after_tick<T>(r: &Result<T, TaskError>) -> (d: TickDecision)
    ensures
        d == (match r {
            Ok(_) => TickDecision::Continue,
            Err(TaskError::Source(SourceError::Network(_))) => TickDecision::Continue,
            Err(_) => TickDecision::Stop,
        }),
{
    match r {
        Ok(_) => TickDecision::Continue,
        Err(TaskError::Source(e)) => {
            if e.is_transient() {
                TickDecision::Continue
            } else {
                TickDecision::Stop
            }
        },
        Err(TaskError::Sink(_)) => TickDecision::Stop,
    }
}

/// A source, the actions its entries run through, and the state kept between ticks.
#[derive(Debug)]
pub struct Task<Src, Snk> {
    /// Prepended to every delivered message to tell where it came from.
    pub tag: Option<String>,
    pub source: Option<Src>,
    pub actions: Option<Vec<Action<Snk>>>,
    pub entry_to_msg_map: Option<EntryToMsgMap>,
    /// Without one, the source marks entries as read on its own side.
    pub read_filter: Option<ReadFilter>,
}

impl<Src: Source, Snk: Sink> Task<Src, Snk> {
    /// Runs one tick on entries already fetched: removes those already read and runs the
    /// rest through the actions. The last sink marks each entry as read right after
    /// delivering it; without a sink action, what comes out of the actions is marked at
    /// the end. A failure leaves marked exactly the entries delivered before it.
    pub fn process(&mut self, entries: Vec<Entry>) -> (r: Result<Vec<TransformError>, TaskError>)
        ensures
            r is Ok ==> opt_rf_view(final(self).read_filter) == rf_after_tick(
                opt_rf_view(old(self).read_filter),
                opt_actions_view(old(self).actions),
                entries_view(entries@),
            ),
            old(self).read_filter matches Some(f) ==> (r is Err ==> exists|k: int|
                0 <= k <= marked_in_tick(f@, opt_actions_view(old(self).actions), entries_view(entries@)).len()
                && opt_rf_view(final(self).read_filter) == Some(rf_marked_all(f@,
                    ids_of(#[trigger] marked_in_tick(f@, opt_actions_view(old(self).actions), entries_view(entries@)).take(k))))),
            old(self).read_filter is Some && !(old(self).actions matches Some(a) && has_sink(a@)) ==> r is Ok,
            old(self).read_filter is Some ==> (r is Err ==> r matches Err(TaskError::Sink(_))),
    {
        let ghost fetched = entries_view(entries@);
        let mut entries = entries;
        match &self.read_filter {
            Some(rf) => rf.remove_read(&mut entries),
            None => {},
        }
        let ghost rf0 = opt_rf_view(self.read_filter);
        assert(rf0 == opt_rf_view(old(self).read_filter));
        let mut errors: Vec<TransformError> = Vec::new();
        let mut sinks = false;
        match &self.actions {
            Some(acts) => {
                proof {
                    lemma_last_sink(acts@);
                }
                sinks = match last_sink_index(acts) {
                    Some(_) => true,
                    None => false,
                };
                match run_actions(acts, entries, &mut self.read_filter, &mut self.source, &self.tag, &mut self.entry_to_msg_map) {
                    Ok((out, errs)) => {
                        entries = out;
                        errors = errs;
                    },
                    Err(e) => {
                        return Err(e);
                    },
                }
            },
            None => {},
        }
        if sinks {
            return Ok(errors);
        }
        let ghost out = entries_view(entries@);
        let ghost rfs = opt_rf_view(self.read_filter);
        assert(rfs == rf0);
        let mut i: usize = 0;
        assert(out.take(0) =~= Seq::<EntryView>::empty());
        while i < entries.len()
            invariant
                i <= entries@.len(),
                out == entries_view(entries@),
                rf0 == opt_rf_view(old(self).read_filter),
                match rf0 {
                    Some(f) => opt_rf_view(self.read_filter) == Some(rf_marked_all(f, ids_of(out.take(i as int)))),
                    None => self.read_filter is None,
                },
            decreases entries.len() - i,
        {
            proof {
                assert(out.take(i + 1).drop_last() =~= out.take(i as int));
                assert(out.take(i + 1).last() == out[i as int]);
            }
            let ghost prev = ids_of(out.take(i as int));
            match &entries[i].id {
                Some(id) => {
                    assert(ids_of(out.take(i + 1)) == prev.push(id@));
                    assert(prev.push(id@).drop_last() =~= prev);
                    match &mut self.read_filter {
                        Some(rf) => {
                            rf.mark_as_read(id.as_str());
                        },
                        None => {
                            match &mut self.source {
                                Some(s) => {
                                    match s.mark_as_read(id.as_str()) {
                                        Ok(()) => {},
                                        Err(e) => {
                                            return Err(TaskError::Source(e));
                                        },
                                    }
                                },
                                None => {},
                            }
                        },
                    }
                },
                None => {
                    assert(ids_of(out.take(i + 1)) == prev);
                },
            }
            i = i + 1;
        }
        assert(out.take(i as int) =~= out);
        Ok(errors)
    }

    /// Fetches from the source and runs one tick on what came back. A failed fetch
    /// leaves the read-filter as it was; a task without a source does nothing.
    pub fn run(&mut self) -> (r: Result<Vec<TransformError>, TaskError>)
        ensures
            old(self).source is None ==> r is Ok && opt_rf_view(final(self).read_filter) == opt_rf_view(old(self).read_filter),
            r is Ok && old(self).source is Some ==> exists|fetched: Seq<EntryView>|
                opt_rf_view(final(self).read_filter) == #[trigger] rf_after_tick(
                    opt_rf_view(old(self).read_filter),
                    opt_actions_view(old(self).actions),
                    fetched,
                ),
            r matches Err(TaskError::Source(_)) && old(self).read_filter is Some
                ==> opt_rf_view(final(self).read_filter) == opt_rf_view(old(self).read_filter),
    {
        let fetched = match &mut self.source {
            Some(s) => s.fetch(),
            None => {
                return Ok(Vec::new());
            },
        };
        match fetched {
            Ok(entries) => {
                let ghost f = entries_view(entries@);
                let r = self.process(entries);
                proof {
                    if r is Ok {
                        assert(opt_rf_view(self.read_filter) == rf_after_tick(
                            opt_rf_view(old(self).read_filter),
                            opt_actions_view(old(self).actions),
                            f,
                        ));
                    }
                }
                r
            },
            Err(e) => Err(TaskError::Source(e)),
        }
    }
}

/// A feed transform followed by a find filter turns an entry whose raw contents hold a
/// feed into exactly the feed's entries that the filter keeps, in feed order.
pub proof fn lemma_feed_then_find<S>(feed: Feed, re: Regex<Find>, e: EntryView, items: Seq<FeedItemView>, rf: Option<ReadFilterView>)
    requires
        e.raw_contents matches Some(raw) && feed_items_of(raw) == Some(items),
    ensures
        pipeline(
            seq![Action::<S>::Transform(Transform::Entry(EntryKind::Feed(feed))), Action::<S>::Filter(Filter::Find(re))],
            seq![e],
            rf,
        ) == find_kept(re.spec_pattern(), re.spec_action().in_field, feed_entries(items)),
{
    let t = Transform::Entry(EntryKind::Feed(feed));
    let acts = seq![Action::<S>::Transform(t), Action::<S>::Filter(Filter::Find(re))];
    let es = seq![e];
    assert(es.drop_last() =~= Seq::<EntryView>::empty());
    assert(es.last() == e);
    assert(transform_spec(t, e) == Ok::<Seq<EntryView>, ()>(feed_entries(items)));
    assert(fan_out(t, es.drop_last()) =~= Seq::<EntryView>::empty());
    assert(fan_out(t, es) == fan_out(t, es.drop_last()) + feed_entries(items));
    assert(fan_out(t, es) =~= feed_entries(items));
    let out = feed_entries(items);
    assert(acts.drop_first() =~= seq![Action::<S>::Filter(Filter::Find(re))]);
    assert(acts.drop_first().drop_first() =~= Seq::<Action<S>>::empty());
    assert(pipeline(acts.drop_first(), out, rf) == pipeline(acts.drop_first().drop_first(), step(acts.drop_first()[0], out, rf), rf));
}

} // verus!
