use std::cell::RefCell;

use fetcher::entry::{Entry, Message};
use fetcher::field::{Field, Kind, Shorten};
use fetcher::read_filter::{Kind as RfKind, ReadFilter};
use fetcher::regex_action::{find, Extract, ExtractionResult, Find, Regex, RegexError, Replace};
use fetcher::sink::{first_part_id, render, split_message, LinkLocation, MessageId, Sink, SinkError};
use fetcher::source::{Source, SourceError};
use fetcher::task::{after_tick, Action, EntryToMsgMap, Filter, Task, TaskError, TickDecision};
use fetcher::transform::{EntryKind, Feed, Transform, TransformErrorKind};

const ENTRY_ID: &str = "0";
const MESSAGE_ID: i64 = 0;

const RSS: &str = r#"<?xml version="1.0"?>
<rss version="2.0"><channel><title>t</title><link>https://example.com/</link><description>d</description>
<item><title>First</title><link>https://example.com/1</link><description>one</description><guid>g1</guid></item>
<item><title>Second</title><link>https://example.com/2</link><description>two</description><guid>g2</guid></item>
<item><title>Third</title><link>https://example.com/3</link><description>three</description><guid>g3</guid></item>
</channel></rss>"#;

struct DummySource;

struct DummySink;

impl Source for DummySource {
    fn fetch(&mut self) -> Result<Vec<Entry>, SourceError> {
        Ok(vec![Entry { reply_to: Some(ENTRY_ID.to_owned()), ..Default::default() }])
    }

    fn mark_as_read(&mut self, _id: &str) -> Result<(), SourceError> {
        Ok(())
    }
}

impl Sink for DummySink {
    fn send(&self, _message: &Message, reply_to: Option<&MessageId>, _tag: Option<&str>) -> Result<Option<MessageId>, SinkError> {
        assert_eq!(reply_to.unwrap().0, MESSAGE_ID);
        Ok(None)
    }
}

#[test]
fn reply_to() {
    let mut entry_to_msg_map = EntryToMsgMap::new();
    entry_to_msg_map.insert(ENTRY_ID.to_owned(), MessageId(MESSAGE_ID));

    let mut task = Task {
        tag: None,
        source: Some(DummySource),
        actions: Some(vec![Action::Sink(DummySink)]),
        entry_to_msg_map: Some(entry_to_msg_map),
        read_filter: None,
    };

    task.run().unwrap();
}

/// A source that hands out one canned page per tick, or fails.
struct PageSource {
    ticks: Vec<Result<String, SourceError>>,
    marked: Vec<String>,
}

impl Source for PageSource {
    fn fetch(&mut self) -> Result<Vec<Entry>, SourceError> {
        match self.ticks.remove(0) {
            Ok(page) => Ok(vec![Entry { raw_contents: Some(page), ..Default::default() }]),
            Err(e) => Err(e),
        }
    }

    fn mark_as_read(&mut self, id: &str) -> Result<(), SourceError> {
        self.marked.push(id.to_owned());
        Ok(())
    }
}

/// A sink that records what it was sent and numbers the messages.
struct Recorder {
    sent: RefCell<Vec<(Option<String>, Option<i64>, Option<String>)>>,
}

impl Sink for Recorder {
    fn send(&self, message: &Message, reply_to: Option<&MessageId>, tag: Option<&str>) -> Result<Option<MessageId>, SinkError> {
        let mut sent = self.sent.borrow_mut();
        sent.push((message.title.clone(), reply_to.map(|m| m.0), tag.map(|t| t.to_owned())));
        Ok(Some(MessageId(100 + sent.len() as i64)))
    }
}

fn recorder() -> Recorder {
    Recorder { sent: RefCell::new(Vec::new()) }
}

fn feed_task(ticks: Vec<Result<String, SourceError>>) -> Task<PageSource, Recorder> {
    Task {
        tag: Some("news".to_owned()),
        source: Some(PageSource { ticks, marked: Vec::new() }),
        actions: Some(vec![
            Action::Transform(Transform::Entry(EntryKind::Feed(Feed))),
            Action::Sink(recorder()),
        ]),
        entry_to_msg_map: Some(EntryToMsgMap::new()),
        read_filter: Some(ReadFilter::new(RfKind::NotPresent)),
    }
}

fn sent_titles(task: &Task<PageSource, Recorder>) -> Vec<Option<String>> {
    match &task.actions.as_ref().unwrap()[1] {
        Action::Sink(r) => r.sent.borrow().iter().map(|s| s.0.clone()).collect(),
        _ => panic!("the second action is the sink"),
    }
}

#[test]
fn http_feed_sink_delivers_items_in_order() {
    let mut task = feed_task(vec![Ok(RSS.to_owned())]);
    let errors = task.run().unwrap();
    assert!(errors.is_empty());
    assert_eq!(
        sent_titles(&task),
        vec![Some("First".to_owned()), Some("Second".to_owned()), Some("Third".to_owned())]
    );
    let saved = task.read_filter.as_ref().unwrap().to_saved();
    assert_eq!(saved.kind, RfKind::NotPresent);
    assert_eq!(saved.ids, vec!["g1".to_owned(), "g2".to_owned(), "g3".to_owned()]);
    let map = task.entry_to_msg_map.as_ref().unwrap();
    assert_eq!(map.get("g1"), Some(MessageId(101)));
    assert_eq!(map.get("g3"), Some(MessageId(103)));
}

#[test]
fn second_tick_does_not_repeat_entries() {
    let mut task = feed_task(vec![Ok(RSS.to_owned()), Ok(RSS.to_owned())]);
    task.run().unwrap();
    task.run().unwrap();
    assert_eq!(sent_titles(&task).len(), 3);
}

#[test]
fn transient_failure_leaves_read_filter_alone() {
    let mut task = feed_task(vec![Err(SourceError::Network("down".to_owned())), Ok(RSS.to_owned())]);
    let r = task.run();
    assert!(matches!(r, Err(TaskError::Source(SourceError::Network(_)))));
    assert_eq!(after_tick(&r), TickDecision::Continue);
    assert!(task.read_filter.as_ref().unwrap().to_saved().ids.is_empty());
    assert!(sent_titles(&task).is_empty());

    let r = task.run();
    assert_eq!(after_tick(&r), TickDecision::Continue);
    assert_eq!(task.read_filter.as_ref().unwrap().to_saved().ids.len(), 3);
}

#[test]
fn auth_failure_stops_the_task() {
    let r: Result<(), TaskError> = Err(TaskError::Source(SourceError::Auth("no".to_owned())));
    assert_eq!(after_tick(&r), TickDecision::Stop);
    let r: Result<(), TaskError> = Err(TaskError::Sink(SinkError::RateLimited));
    assert_eq!(after_tick(&r), TickDecision::Stop);
}

#[test]
fn source_marks_as_read_without_read_filter() {
    let mut task = feed_task(vec![Ok(RSS.to_owned())]);
    task.read_filter = None;
    task.run().unwrap();
    assert_eq!(task.source.as_ref().unwrap().marked, vec!["g1".to_owned(), "g2".to_owned(), "g3".to_owned()]);
}

#[test]
fn tag_and_reply_target_reach_the_sink() {
    let mut task = feed_task(vec![]);
    let mut map = EntryToMsgMap::new();
    map.insert("g0".to_owned(), MessageId(7));
    task.entry_to_msg_map = Some(map);
    let entry = Entry { id: Some("x".to_owned()), reply_to: Some("g0".to_owned()), msg: Message { title: Some("t".to_owned()), ..Default::default() }, ..Default::default() };
    task.actions = Some(vec![Action::Sink(recorder())]);
    task.process(vec![entry]).unwrap();
    match &task.actions.as_ref().unwrap()[0] {
        Action::Sink(r) => assert_eq!(r.sent.borrow()[0], (Some("t".to_owned()), Some(7), Some("news".to_owned()))),
        _ => unreachable!(),
    }
}

fn feed_entry() -> Entry {
    Entry { raw_contents: Some(RSS.to_owned()), ..Default::default() }
}

#[test]
fn feed_then_find_keeps_matching_items_in_order() {
    let t = Transform::Entry(EntryKind::Feed(Feed));
    let (entries, errors) = t.transform_all(vec![feed_entry()]);
    assert!(errors.is_empty());
    assert_eq!(entries.len(), 3);
    assert_eq!(entries[0].msg.link.as_deref(), Some("https://example.com/1"));
    assert_eq!(entries[1].msg.body.as_deref(), Some("two"));
    let re = Regex::new("^(First|Third)$", Find { in_field: Field::Title }).unwrap();
    let mut entries = entries;
    re.filter(&mut entries);
    let ids: Vec<_> = entries.iter().map(|e| e.id.clone().unwrap()).collect();
    assert_eq!(ids, vec!["g1".to_owned(), "g3".to_owned()]);
}

#[test]
fn feed_on_garbage_drops_the_entry() {
    let t = Transform::Entry(EntryKind::Feed(Feed));
    let e = Entry { raw_contents: Some("not a feed".to_owned()), ..Default::default() };
    let (entries, errors) = t.transform_all(vec![e, feed_entry()]);
    assert_eq!(entries.len(), 3);
    assert_eq!(errors.len(), 1);
    assert!(matches!(errors[0].kind, TransformErrorKind::Feed(_)));
    assert_eq!(errors[0].original_entry.raw_contents.as_deref(), Some("not a feed"));
}

#[test]
fn feed_without_raw_contents_fails() {
    let t = Transform::Entry(EntryKind::Feed(Feed));
    let r = t.transform(Entry::default());
    assert!(matches!(r, Err(e) if matches!(e.kind, TransformErrorKind::RawContentsMissing)));
}

#[test]
fn extract_single() {
    let re = Regex::new("Hello, (?P<s>.*)!", Extract { passthrough_if_not_found: false }).unwrap();
    assert_eq!(find(&re, "Hello, world!"), ExtractionResult::Extracted("world".to_owned()));
    assert_eq!(re.extract("Hello, world!"), Some("world".to_owned()));
}

#[test]
fn extract_not_found() {
    let re = Regex::new("Hello, (?P<s>.*)!", Extract { passthrough_if_not_found: false }).unwrap();
    assert_eq!(find(&re, "Bad string"), ExtractionResult::NotMatched);
    assert!(matches!(re.transform_field(Some("Bad string")), Err(RegexError::CaptureGroupMissing)));
}

#[test]
fn extract_passthrough_keeps_field() {
    let re = Regex::new("Hello, (?P<s>.*)!", Extract { passthrough_if_not_found: true }).unwrap();
    let r = re.transform_field(Some("Bad string")).unwrap();
    assert_eq!(r.get(None), Some("Bad string".to_owned()));
}

#[test]
fn match_without_group_is_matched() {
    let re = Regex::new("Hello", Extract { passthrough_if_not_found: false }).unwrap();
    assert_eq!(find(&re, "Hello, world!"), ExtractionResult::Matched);
    assert!(matches!(re.transform_field(Some("Hello")), Err(RegexError::CaptureGroupMissing)));
}

#[test]
fn invalid_regex_is_rejected() {
    assert!(matches!(Regex::new("(", Find { in_field: Field::Body }), Err(RegexError::Compile(_))));
}

#[test]
fn replace_all_expands_group() {
    let re = Regex::new("/s-anzeige/(?:.*)/(?P<s>[0-9]+)-", Replace { with: "$s".to_owned() }).unwrap();
    assert_eq!(re.replace("/s-anzeige/suche-einen-defekten-ps4-controller/2210607105-279-9346"), "2210607105279-9346");
    let re = Regex::new("a", Replace { with: "b".to_owned() }).unwrap();
    assert_eq!(re.replace("banana"), "bbnbnb");
}

fn message_entry(title: Option<&str>, body: Option<&str>, link: Option<&str>) -> Entry {
    Entry {
        msg: Message { title: title.map(str::to_owned), body: body.map(str::to_owned), link: link.map(str::to_owned), media: None },
        ..Default::default()
    }
}

#[test]
fn find_retains_iff_field_matches() {
    let re = Regex::new("rust", Find { in_field: Field::Body }).unwrap();
    let mut entries = vec![
        message_entry(None, Some("I like rust"), None),
        message_entry(Some("rust"), Some("go"), None),
        message_entry(None, None, None),
        message_entry(None, Some("trusty"), None),
    ];
    re.filter(&mut entries);
    assert_eq!(entries.len(), 2);
    assert_eq!(entries[0].msg.body.as_deref(), Some("I like rust"));
    assert_eq!(entries[1].msg.body.as_deref(), Some("trusty"));

    let re = Regex::new("example\\.org", Find { in_field: Field::Link }).unwrap();
    let mut entries = vec![message_entry(None, None, Some("https://example.org/a")), message_entry(None, None, Some("https://example.com/"))];
    re.filter(&mut entries);
    assert_eq!(entries.len(), 1);
}

#[test]
fn extract_then_trim_keeps_numbers() {
    let extract = Transform::Field {
        field: Field::Body,
        kind: Kind::Extract(Regex::new("(?P<s>\\s*\\d+\\s*)", Extract { passthrough_if_not_found: false }).unwrap()),
    };
    let trim = Transform::Field { field: Field::Body, kind: Kind::Trim };
    let entries = vec![
        message_entry(None, Some("<b>Post</b> 12 "), None),
        message_entry(None, Some("Post\n 345\t"), None),
        message_entry(None, Some("7"), None),
    ];
    let (entries, errors) = extract.transform_all(entries);
    assert!(errors.is_empty());
    let (entries, _) = trim.transform_all(entries);
    let bodies: Vec<_> = entries.iter().map(|e| e.msg.body.clone().unwrap()).collect();
    assert_eq!(bodies, vec!["12".to_owned(), "345".to_owned(), "7".to_owned()]);
}

#[test]
fn field_transform_error_keeps_original_entry() {
    let extract = Transform::Field {
        field: Field::Title,
        kind: Kind::Extract(Regex::new("(?P<s>\\d+)", Extract { passthrough_if_not_found: false }).unwrap()),
    };
    let (entries, errors) = extract.transform_all(vec![message_entry(Some("none"), None, None), message_entry(Some("n 5"), None, None)]);
    assert_eq!(entries.len(), 1);
    assert_eq!(entries[0].msg.title.as_deref(), Some("5"));
    assert_eq!(errors[0].original_entry.msg.title.as_deref(), Some("none"));
}

#[test]
fn absent_field_stays_absent() {
    let t = Transform::Field { field: Field::Title, kind: Kind::Caps };
    let out = t.transform(message_entry(None, Some("b"), None)).unwrap();
    assert_eq!(out[0].msg.title, None);
    assert_eq!(out[0].msg.body.as_deref(), Some("b"));
}

#[test]
fn caps_uppercases_unicode() {
    let t = Transform::Field { field: Field::Title, kind: Kind::Caps };
    let out = t.transform(message_entry(Some("straße ß"), None, None)).unwrap();
    assert_eq!(out[0].msg.title.as_deref(), Some("STRASSE SS"));
}

#[test]
fn shorten_counts_characters() {
    let s = Shorten { len: 3 };
    assert_eq!(s.shorten("ab"), "ab");
    assert_eq!(s.shorten("abc"), "abc");
    assert_eq!(s.shorten("abcd"), "abc…");
    assert_eq!(s.shorten("äöüß"), "äöü…");
    assert_eq!(Shorten { len: 0 }.shorten("x"), "…");
    assert_eq!(Shorten { len: 0 }.shorten(""), "");
}

#[test]
fn trim_strips_ascii_whitespace_only() {
    assert_eq!(fetcher::field::trim("  a b \t\n"), "a b");
    assert_eq!(fetcher::field::trim(" \r\n "), "");
    assert_eq!(fetcher::field::trim("\u{a0}x\u{a0}"), "\u{a0}x\u{a0}");
}

#[test]
fn use_raw_contents_copies_into_field() {
    let t = Transform::Entry(EntryKind::UseRawContents(fetcher::transform::UseRawContents { field: Field::Body }));
    let e = Entry { raw_contents: Some("raw".to_owned()), ..Default::default() };
    let out = t.transform(e).unwrap();
    assert_eq!(out[0].msg.body.as_deref(), Some("raw"));

    let t = Transform::Entry(EntryKind::UseRawContents(fetcher::transform::UseRawContents { field: Field::Link }));
    let e = Entry { raw_contents: Some("not a url".to_owned()), ..Default::default() };
    assert!(matches!(t.transform(e), Err(e) if matches!(e.kind, TransformErrorKind::InvalidUrl(_))));
    let e = Entry { raw_contents: Some("HTTPS://Example.COM".to_owned()), ..Default::default() };
    assert_eq!(t.transform(e).unwrap()[0].msg.link.as_deref(), Some("https://example.com/"));
}

#[test]
fn filter_action_in_pipeline() {
    let mut task: Task<PageSource, Recorder> = feed_task(vec![Ok(RSS.to_owned())]);
    task.actions = Some(vec![
        Action::Transform(Transform::Entry(EntryKind::Feed(Feed))),
        Action::Filter(Filter::Find(Regex::new("Second", Find { in_field: Field::Title }).unwrap())),
        Action::Sink(recorder()),
    ]);
    task.run().unwrap();
    match &task.actions.as_ref().unwrap()[2] {
        Action::Sink(r) => assert_eq!(r.sent.borrow().len(), 1),
        _ => unreachable!(),
    }
    assert_eq!(task.read_filter.as_ref().unwrap().to_saved().ids, vec!["g2".to_owned()]);
}

#[test]
fn render_places_tag_and_link() {
    let m = Message { title: Some("T".to_owned()), body: Some("B".to_owned()), link: Some("https://x.y/".to_owned()), media: None };
    assert_eq!(render(&m, Some("news"), LinkLocation::PreferTitle), "[news] <a href=\"https://x.y/\">T</a>\n\nB");
    assert_eq!(render(&m, None, LinkLocation::Bottom), "T\n\nB\n\nhttps://x.y/");
    let m = Message { title: None, body: Some("B".to_owned()), link: Some("https://x.y/".to_owned()), media: None };
    assert_eq!(render(&m, Some("t"), LinkLocation::PreferTitle), "[t] B\n\nhttps://x.y/");
    assert_eq!(render(&Message::default(), None, LinkLocation::Bottom), "");
}

#[test]
fn split_prefers_paragraphs_then_sentences() {
    assert_eq!(split_message("short", 10), vec!["short".to_owned()]);
    assert!(split_message("", 10).is_empty());
    assert_eq!(split_message("aaa\n\nbbb. ccc", 9), vec!["aaa\n\n".to_owned(), "bbb. ccc".to_owned()]);
    assert_eq!(split_message("aaa. bbb ccc", 8), vec!["aaa. ".to_owned(), "bbb ccc".to_owned()]);
    assert_eq!(split_message("abcdefgh", 3), vec!["abc".to_owned(), "def".to_owned(), "gh".to_owned()]);
    assert_eq!(split_message("äöüß", 2), vec!["äö".to_owned(), "üß".to_owned()]);
    let long = "word. ".repeat(50);
    let parts = split_message(&long, 64);
    assert!(parts.iter().all(|p| p.chars().count() <= 64));
    assert_eq!(parts.concat(), long);
}

#[test]
fn split_message_id_is_first_part() {
    assert_eq!(first_part_id(&vec![Some(MessageId(4)), Some(MessageId(5))]), Some(MessageId(4)));
    assert_eq!(first_part_id(&vec![]), None);
}

/// A source that lists entries oldest first, one list per tick.
struct IdSource {
    ticks: Vec<Vec<&'static str>>,
}

impl Source for IdSource {
    fn fetch(&mut self) -> Result<Vec<Entry>, SourceError> {
        Ok(self
            .ticks
            .remove(0)
            .into_iter()
            .map(|id| Entry { id: Some(id.to_owned()), msg: Message { title: Some(id.to_owned()), ..Default::default() }, ..Default::default() })
            .collect())
    }

    fn mark_as_read(&mut self, _id: &str) -> Result<(), SourceError> {
        Ok(())
    }
}

#[test]
fn newer_than_delivers_each_entry_once() {
    let mut task = Task {
        tag: None,
        source: Some(IdSource { ticks: vec![vec!["1", "2", "3"], vec!["1", "2", "3", "4"], vec!["3", "4", "5"]] }),
        actions: Some(vec![Action::Sink(recorder())]),
        entry_to_msg_map: None,
        read_filter: Some(ReadFilter::new(RfKind::NewerThan)),
    };
    task.run().unwrap();
    task.run().unwrap();
    task.run().unwrap();
    match &task.actions.as_ref().unwrap()[0] {
        Action::Sink(r) => {
            let titles: Vec<_> = r.sent.borrow().iter().map(|s| s.0.clone().unwrap()).collect();
            assert_eq!(titles, vec!["1", "2", "3", "4", "5"]);
        }
        _ => unreachable!(),
    }
    assert_eq!(task.read_filter.as_ref().unwrap().last_read(), Some("5".to_owned()));
}

/// A sink that refuses every message after the first `ok` ones.
struct FailingSink {
    ok: usize,
    sent: RefCell<usize>,
}

impl Sink for FailingSink {
    fn send(&self, _message: &Message, _reply_to: Option<&MessageId>, _tag: Option<&str>) -> Result<Option<MessageId>, SinkError> {
        let mut n = self.sent.borrow_mut();
        if *n >= self.ok {
            return Err(SinkError::Network("down".to_owned()));
        }
        *n += 1;
        Ok(None)
    }
}

#[test]
fn sink_failure_keeps_earlier_entries_marked() {
    let mut task = Task {
        tag: None,
        source: Some(IdSource { ticks: vec![vec!["1", "2", "3"], vec!["1", "2", "3"]] }),
        actions: Some(vec![Action::Sink(FailingSink { ok: 2, sent: RefCell::new(0) })]),
        entry_to_msg_map: None,
        read_filter: Some(ReadFilter::new(RfKind::NotPresent)),
    };
    assert!(matches!(task.run(), Err(TaskError::Sink(_))));
    assert_eq!(task.read_filter.as_ref().unwrap().to_saved().ids, vec!["1".to_owned(), "2".to_owned()]);
    let r = task.run();
    assert!(matches!(r, Err(TaskError::Sink(_))));
    assert_eq!(task.read_filter.as_ref().unwrap().to_saved().ids.len(), 2);
}
