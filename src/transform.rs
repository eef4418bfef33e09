//! Transforms: whole-entry transforms that may turn one entry into several, and
//! field transforms that rewrite one field.

use vstd::prelude::*;
use crate::entry::{Entry, EntryView, Message, MessageView, entries_view, opt_view, clone_opt};
use crate::field::{
    Field, Kind, Shorten, TransformResult, TransformResultView, caps, resolved, shortened, trim,
    trim_ascii, upper_of,
};
use crate::link::{parse_url, url_of};
use crate::regex_action::{RegexError, extract_result, field_of, replaced_all};

verus! {

#[verifier::external_type_specification]
#[verifier::external_body]
pub struct ExRssError(::rss::Error);

/// Upper-cases a field.
#[derive(Debug, Clone, Copy)]
pub struct Caps;

impl Caps {
    pub fn transform_field(&self, field: &str) -> (r: TransformResult)
        ensures
            r@ == TransformResultView::New(Some(upper_of(field@))),
    {
        TransformResult::New(Some(caps(field)))
    }
}

/// Strips ASCII whitespace from both ends of a field.
#[derive(Debug, Clone, Copy)]
pub struct Trim;

impl Trim {
    pub fn transform_field(&self, field: &str) -> (r: TransformResult)
        ensures
            r@ == TransformResultView::New(Some(trim_ascii(field@))),
    {
        TransformResult::New(Some(trim(field)))
    }
}

/// What a field operator makes of a field's value: `Ok` with the value it ends up with,
/// or `Err` when the operator fails.
pub open spec fn field_op(kind: Kind, old: Option<Seq<char>>) -> Result<Option<Seq<char>>, ()> {
    match old {
        None => Ok(None),
        Some(v) => match kind {
            Kind::Trim => Ok(Some(trim_ascii(v))),
            Kind::Caps => Ok(Some(upper_of(v))),
            Kind::Shorten(s) => Ok(Some(shortened(v, s.len as nat))),
            Kind::Extract(re) => match extract_result(re.spec_pattern(), re.spec_action().passthrough_if_not_found, v) {
                Ok(x) => Ok(Some(x)),
                Err(_) => Err(()),
            },
            Kind::Replace(re) => Ok(Some(replaced_all(re.spec_pattern(), v, re.spec_action().with@))),
        },
    }
}

impl Kind {
    /// Applies the operator to a field's value; an absent value stays absent.
    pub fn transform_field(&self, field: Option<&str>) -> (r: Result<TransformResult, TransformErrorKind>)
        ensures
            match field_op(*self, match field { Some(f) => Some(f@), None => None }) {
                Ok(v) => r matches Ok(t) && resolved(t@, match field { Some(f) => Some(f@), None => None }) == v,
                Err(_) => r matches Err(TransformErrorKind::Regex(RegexError::CaptureGroupMissing)),
            },
    {
        let v = match field {
            Some(v) => v,
            None => {
                return Ok(TransformResult::Old);
            },
        };
        match self {
            Kind::Trim => Ok(Trim.transform_field(v)),
            Kind::Caps => Ok(Caps.transform_field(v)),
            Kind::Shorten(s) => Ok(TransformResult::New(Some(s.shorten(v)))),
            Kind::Extract(re) => match re.transform_field(Some(v)) {
                Ok(t) => Ok(t),
                Err(e) => Err(TransformErrorKind::Regex(e)),
            },
            Kind::Replace(re) => Ok(re.transform_field(Some(v))),
        }
    }
}

/// One item of a feed, as the feed states it.
#[derive(Debug)]
pub struct FeedItem {
    pub guid: Option<String>,
    pub title: Option<String>,
    pub description: Option<String>,
    pub link: Option<String>,
}

pub struct FeedItemView {
    pub guid: Option<Seq<char>>,
    pub title: Option<Seq<char>>,
    pub description: Option<Seq<char>>,
    pub link: Option<Seq<char>>,
}

impl View for FeedItem {
    type V = FeedItemView;

    open spec fn view(&self) -> FeedItemView {
        FeedItemView {
            guid: opt_view(self.guid),
            title: opt_view(self.title),
            description: opt_view(self.description),
            link: opt_view(self.link),
        }
    }
}

pub open spec fn feed_items_view(v: Seq<FeedItem>) -> Seq<FeedItemView> {
    Seq::new(v.len(), |i: int| v[i]@)
}

/// The name of the items that an RSS document holds, in document order, or `None`
/// when it is no RSS document.
pub uninterp spec fn feed_items_of(raw: Seq<char>) -> Option<Seq<FeedItemView>>;

/// Relies on rss::Channel::read_from (and Item's guid, title, description and link
/// getters): the items of the channel in document order.
#[verifier::external_body]
fn read_feed(raw: &str) -> (r: Result<Vec<FeedItem>, ::rss::Error>)
    ensures
        r is Ok <==> feed_items_of(raw@) is Some,
        r matches Ok(items) ==> Some(feed_items_view(items@)) == feed_items_of(raw@),
{
    let channel = ::rss::Channel::read_from(raw.as_bytes())?;
    Ok(channel.items().iter().map(|i| FeedItem {
        guid: i.guid().map(|g| g.value().to_owned()),
        title: i.title().map(|s| s.to_owned()),
        description: i.description().map(|s| s.to_owned()),
        link: i.link().map(|s| s.to_owned()),
    }).collect())
}

/// The entry made of a feed item: its guid (else its link) as id, its title, its
/// description as body, and its link if that is a well-formed URL.
pub open spec fn feed_entry(it: FeedItemView) -> EntryView {
    EntryView {
        id: if it.guid is Some { it.guid } else { it.link },
        raw_contents: None,
        msg: MessageView {
            title: it.title,
            body: it.description,
            link: match it.link {
                Some(l) => url_of(l),
                None => None,
            },
            media: None,
        },
        reply_to: None,
    }
}

pub open spec fn feed_entries(items: Seq<FeedItemView>) -> Seq<EntryView> {
    Seq::new(items.len(), |i: int| feed_entry(items[i]))
}

/// Turns an RSS document into one entry per item.
#[derive(Debug, Clone, Copy)]
pub struct Feed;

impl Feed {
    /// The entry made of one feed item.
    pub fn entry_of(item: &FeedItem) -> (r: Entry)
        ensures
            r@ == feed_entry(item@),
    {
        let id = match &item.guid {
            Some(g) => Some(g.clone()),
            None => clone_opt(&item.link),
        };
        let link = match &item.link {
            Some(l) => parse_url(l.as_str()),
            None => None,
        };
        Entry {
            id,
            raw_contents: None,
            msg: Message { title: clone_opt(&item.title), body: clone_opt(&item.description), link, media: None },
            reply_to: None,
        }
    }

    /// The entries made of the items of a feed, in order.
    pub fn entries_of(items: &Vec<FeedItem>) -> (r: Vec<Entry>)
        ensures
            entries_view(r@) == feed_entries(feed_items_view(items@)),
    {
        let mut r: Vec<Entry> = Vec::new();
        let mut i: usize = 0;
        while i < items.len()
            invariant
                i <= items@.len(),
                r@.len() == i,
                forall|j: int| 0 <= j < i ==> (#[trigger] r@[j])@ == feed_entry(items@[j]@),
            decreases items.len() - i,
        {
            r.push(Feed::entry_of(&items[i]));
            i = i + 1;
        }
        assert(entries_view(r@) =~= feed_entries(feed_items_view(items@)));
        r
    }

    /// Parses the raw contents of `entry` as an RSS document into one entry per item.
    pub fn transform_entry(&self, entry: &Entry) -> (r: Result<Vec<Entry>, TransformErrorKind>)
        ensures
            match entry@.raw_contents {
                None => r matches Err(TransformErrorKind::RawContentsMissing),
                Some(raw) => match feed_items_of(raw) {
                    None => r matches Err(TransformErrorKind::Feed(_)),
                    Some(items) => r matches Ok(v) && entries_view(v@) == feed_entries(items),
                },
            },
    {
        let raw = match &entry.raw_contents {
            Some(raw) => raw,
            None => {
                return Err(TransformErrorKind::RawContentsMissing);
            },
        };
        match read_feed(raw.as_str()) {
            Ok(items) => Ok(Feed::entries_of(&items)),
            Err(e) => Err(TransformErrorKind::Feed(e)),
        }
    }
}

/// Copies the raw contents of an entry into one of its fields.
#[derive(Debug, Clone, Copy)]
pub struct UseRawContents {
    pub field: Field,
}

/// `m` with `field` set to `v`.
pub open spec fn with_field(m: MessageView, field: Field, v: Option<Seq<char>>) -> MessageView {
    match field {
        Field::Title => MessageView { title: v, ..m },
        Field::Body => MessageView { body: v, ..m },
        Field::Link => MessageView { link: v, ..m },
    }
}

/// What copying the raw contents into `field` makes of `e`; a link must be a
/// well-formed URL.
pub open spec fn use_raw_contents(e: EntryView, field: Field) -> Result<EntryView, ()> {
    match e.raw_contents {
        None => Ok(e),
        Some(raw) => match field {
            Field::Link => match url_of(raw) {
                Some(u) => Ok(EntryView { msg: with_field(e.msg, field, Some(u)), ..e }),
                None => Err(()),
            },
            _ => Ok(EntryView { msg: with_field(e.msg, field, Some(raw)), ..e }),
        },
    }
}

/// `entry` with `field` of its message set to `v`.
fn set_field(entry: Entry, field: Field, v: Option<String>) -> (r: Entry)
    ensures
        r@ == (EntryView { msg: with_field(entry@.msg, field, opt_view(v)), ..entry@ }),
{
    let Entry { id, raw_contents, msg, reply_to } = entry;
    let msg = match field {
        Field::Title => Message { title: v, ..msg },
        Field::Body => Message { body: v, ..msg },
        Field::Link => Message { link: v, ..msg },
    };
    Entry { id, raw_contents, msg, reply_to }
}

impl UseRawContents {
    pub fn transform_entry(&self, entry: Entry) -> (r: Result<Entry, TransformErrorKind>)
        ensures
            match use_raw_contents(entry@, self.field) {
                Ok(e) => r matches Ok(x) && x@ == e,
                Err(_) => r matches Err(TransformErrorKind::InvalidUrl(s)) && entry@.raw_contents == Some(s@),
            },
    {
        let raw = match &entry.raw_contents {
            Some(raw) => raw.clone(),
            None => {
                return Ok(entry);
            },
        };
        match self.field {
            Field::Link => match parse_url(raw.as_str()) {
                Some(u) => Ok(set_field(entry, Field::Link, Some(u))),
                None => Err(TransformErrorKind::InvalidUrl(raw)),
            },
            f => Ok(set_field(entry, f, Some(raw))),
        }
    }
}

/// Why a transform failed on an entry.
#[derive(Debug)]
pub enum TransformErrorKind {
    Regex(RegexError),
    Feed(::rss::Error),
    /// The transform needs the raw contents, and the entry has none.
    RawContentsMissing,
    /// The text that should have become a link is no well-formed URL.
    InvalidUrl(String),
}

/// A transform failure, with the entry it failed on.
#[derive(Debug)]
pub struct TransformError {
    pub kind: TransformErrorKind,
    pub original_entry: Entry,
}

/// Turns one entry into any number of entries.
pub trait TransformEntry {
    fn transform_entry(&self, entry: &Entry) -> Result<Vec<Entry>, TransformErrorKind>;
}

impl TransformEntry for Feed {
    fn transform_entry(&self, entry: &Entry) -> Result<Vec<Entry>, TransformErrorKind> {
        Feed::transform_entry(self, entry)
    }
}

impl TransformEntry for UseRawContents {
    fn transform_entry(&self, entry: &Entry) -> Result<Vec<Entry>, TransformErrorKind> {
        match UseRawContents::transform_entry(self, entry.duplicate()) {
            Ok(e) => {
                let mut v: Vec<Entry> = Vec::new();
                v.push(e);
                Ok(v)
            },
            Err(k) => Err(k),
        }
    }
}

/// A transform of whole entries.
#[derive(Debug, Clone, Copy)]
pub enum EntryKind {
    Feed(Feed),
    UseRawContents(UseRawContents),
}

/// Either a whole-entry transform or a field transform.
#[derive(Debug)]
pub enum Transform {
    Entry(EntryKind),
    Field { field: Field, kind: Kind },
}

/// The entries a transform makes of `e`, or `Err` when it fails on it.
pub open spec fn transform_spec(t: Transform, e: EntryView) -> Result<Seq<EntryView>, ()> {
    match t {
        Transform::Entry(EntryKind::Feed(_)) => match e.raw_contents {
            None => Err(()),
            Some(raw) => match feed_items_of(raw) {
                None => Err(()),
                Some(items) => Ok(feed_entries(items)),
            },
        },
        Transform::Entry(EntryKind::UseRawContents(u)) => match use_raw_contents(e, u.field) {
            Ok(x) => Ok(seq![x]),
            Err(_) => Err(()),
        },
        Transform::Field { field, kind } => match field_op(kind, field_of(e.msg, field)) {
            Ok(v) => Ok(seq![EntryView { msg: with_field(e.msg, field, v), ..e }]),
            Err(_) => Err(()),
        },
    }
}

/// The entries a transform makes of `es`: each one's results in place of it, in order;
/// an entry the transform fails on is dropped.
pub open spec fn fan_out(t: Transform, es: Seq<EntryView>) -> Seq<EntryView>
    decreases es.len(),
{
    if es.len() == 0 {
        Seq::empty()
    } else {
        fan_out(t, es.drop_last()) + match transform_spec(t, es.last()) {
            Ok(v) => v,
            Err(_) => Seq::empty(),
        }
    }
}

/// Which kind of failure a transform reports on `e`.
pub open spec fn error_kind_fits(t: Transform, e: EntryView, k: TransformErrorKind) -> bool {
    match t {
        Transform::Entry(EntryKind::Feed(_)) => match e.raw_contents {
            None => k is RawContentsMissing,
            Some(_) => k is Feed,
        },
        Transform::Entry(EntryKind::UseRawContents(_)) => k matches TransformErrorKind::InvalidUrl(s)
            && e.raw_contents == Some(s@),
        Transform::Field { .. } => k matches TransformErrorKind::Regex(RegexError::CaptureGroupMissing),
    }
}

impl Transform {
    /// Transforms one entry into the entries that replace it.
    pub fn transform(&self, entry: Entry) -> (r: Result<Vec<Entry>, TransformError>)
        ensures
            match transform_spec(*self, entry@) {
                Ok(v) => r matches Ok(x) && entries_view(x@) == v,
                Err(_) => r matches Err(e) && e.original_entry@ == entry@ && error_kind_fits(*self, entry@, e.kind),
            },
    {
        match self {
            Transform::Entry(EntryKind::Feed(f)) => match f.transform_entry(&entry) {
                Ok(v) => Ok(v),
                Err(kind) => Err(TransformError { kind, original_entry: entry }),
            },
            Transform::Entry(EntryKind::UseRawContents(u)) => {
                let copy = entry.duplicate();
                match u.transform_entry(entry) {
                    Ok(x) => {
                        let mut v: Vec<Entry> = Vec::new();
                        v.push(x);
                        assert(entries_view(v@) =~= seq![v@[0]@]);
                        Ok(v)
                    },
                    Err(kind) => Err(TransformError { kind, original_entry: copy }),
                }
            },
            Transform::Field { field, kind } => {
                let old = match field {
                    Field::Title => clone_opt(&entry.msg.title),
                    Field::Body => clone_opt(&entry.msg.body),
                    Field::Link => clone_opt(&entry.msg.link),
                };
                let res = match &old {
                    Some(s) => kind.transform_field(Some(s.as_str())),
                    None => kind.transform_field(None),
                };
                match res {
                    Ok(t) => {
                        let v = t.get(old);
                        let x = set_field(entry, *field, v);
                        let mut out: Vec<Entry> = Vec::new();
                        out.push(x);
                        assert(entries_view(out@) =~= seq![out@[0]@]);
                        Ok(out)
                    },
                    Err(kind) => Err(TransformError { kind, original_entry: entry }),
                }
            },
        }
    }

    /// Transforms every entry of `entries`, replacing each by its results in order.
    /// Entries the transform fails on are dropped; their errors are returned alongside.
    pub fn transform_all(&self, entries: Vec<Entry>) -> (r: (Vec<Entry>, Vec<TransformError>))
        ensures
            entries_view(r.0@) == fan_out(*self, entries_view(entries@)),
    {
        let ghost es = entries_view(entries@);
        let mut out: Vec<Entry> = Vec::new();
        let mut errors: Vec<TransformError> = Vec::new();
        let mut i: usize = 0;
        while i < entries.len()
            invariant
                i <= entries@.len(),
                es == entries_view(entries@),
                entries_view(out@) == fan_out(*self, es.take(i as int)),
            decreases entries.len() - i,
        {
            proof {
                assert(es.take(i + 1).drop_last() =~= es.take(i as int));
                assert(es.take(i + 1).last() == es[i as int]);
            }
            let e = entries[i].duplicate();
            match self.transform(e) {
                Ok(mut v) => {
                    let ghost before = out@;
                    let ghost added = v@;
                    out.append(&mut v);
                    assert(entries_view(out@) =~= entries_view(before) + entries_view(added));
                },
                Err(err) => {
                    errors.push(err);
                    assert(entries_view(out@) =~= fan_out(*self, es.take(i as int)) + Seq::<EntryView>::empty());
                },
            }
            i = i + 1;
        }
        assert(es.take(i as int) =~= es);
        (out, errors)
    }
}

} // verus!
