use fetcher::auth::{GoogleAuth, GoogleAuthCfg};
use fetcher::config::jobs::{
    ActionConf, DataLocation, ElementAttr, ElementDataQuery, ElementKind, ElementQuery, EntryId,
    EntryToMsgMap as ConfMap, Extract as ConfExtract, HtmlQueryRegex, Job, LinkLocation, MessageId as ConfMessageId,
    Regex as ConfRegex, Action as ConfRegexAction, Shorten as ConfShorten, Sink as ConfSink, Source as ConfSource,
    Task as ConfTask, Telegram, TimePoint as ConfTimePoint, Trim as ConfTrim, decode_actions,
};
use fetcher::config::{ConfigError, ExternalDataError, ExternalDataResult, Field as ConfField, ProvideExternalData};
use fetcher::email::{Auth, Email, EmailError, EmailFilters, ImapCommand, join_uids};
use fetcher::entry::Entry;
use fetcher::field::{Field, Kind};
use fetcher::http::{ClientState, Http, HttpError, HttpTransformError, TransformFromField};
use fetcher::query;
use fetcher::read_filter::{Kind as RfKind, ReadFilter, ReadFilterError, ReadFilterNewer, ReadFilterNotPresent, SavedReadFilter, NOT_PRESENT_CAP};
use fetcher::settings::{DocEntry, JobFilter, RunOutcome, disabled, exit_code, merge, merge_all};
use fetcher::sink::{LinkLocation as CLinkLocation, MessageId};
use fetcher::task::{Action, EntryToMsgMap, Filter};
use fetcher::timepoint::{TimePoint, parse_duration, parse_time_of_day};
use fetcher::transform::Transform;

fn with_id(id: &str) -> Entry {
    Entry { id: Some(id.to_owned()), ..Default::default() }
}

fn ids(v: &[Entry]) -> Vec<String> {
    v.iter().map(|e| e.id.clone().unwrap_or_default()).collect()
}

#[test]
fn mark_as_read_twice_is_mark_once() {
    for kind in [RfKind::NotPresent, RfKind::NewerThan] {
        let mut once = ReadFilter::new(kind);
        once.mark_as_read("a");
        let mut twice = ReadFilter::new(kind);
        twice.mark_as_read("a");
        twice.mark_as_read("a");
        assert_eq!(once.to_saved().ids, twice.to_saved().ids);
        assert_eq!(twice.to_saved().ids, vec!["a".to_owned()]);
    }
}

#[test]
fn marked_entry_is_removed() {
    for kind in [RfKind::NotPresent, RfKind::NewerThan] {
        let mut rf = ReadFilter::new(kind);
        rf.mark_as_read("x");
        let mut v = vec![with_id("x")];
        rf.remove_read(&mut v);
        assert!(v.is_empty());
    }
}

#[test]
fn not_present_keeps_most_recent_ids() {
    let mut f = ReadFilterNotPresent::new();
    let n = NOT_PRESENT_CAP + 7;
    for i in 0..n {
        f.mark_as_read(&i.to_string());
    }
    let ids = f.ids();
    assert_eq!(ids.len(), NOT_PRESENT_CAP);
    let expected: Vec<String> = (7..n).map(|i| i.to_string()).collect();
    assert_eq!(ids, expected);
    assert_eq!(f.last_read(), Some((n - 1).to_string()));
}

#[test]
fn not_present_removes_read_keeps_order() {
    let mut f = ReadFilterNotPresent::new();
    f.mark_as_read("b");
    f.mark_as_read("d");
    let mut v = vec![with_id("a"), with_id("b"), Entry::default(), with_id("c"), with_id("d")];
    f.remove_read_from(&mut v);
    assert_eq!(ids(&v), vec!["a".to_owned(), "".to_owned(), "c".to_owned()]);
}

#[test]
fn no_id_repeats_across_ticks() {
    let mut rf = ReadFilter::new(RfKind::NotPresent);
    let mut first = vec![with_id("1"), with_id("2")];
    rf.remove_read(&mut first);
    for e in &first {
        rf.mark_as_read(e.id.as_deref().unwrap());
    }
    let mut second = vec![with_id("2"), with_id("3"), with_id("1")];
    rf.remove_read(&mut second);
    assert_eq!(ids(&second), vec!["3".to_owned()]);
}

#[test]
fn newer_than_keeps_entries_after_last_read() {
    let mut f = ReadFilterNewer::new();
    let mut v = vec![with_id("5"), with_id("4")];
    f.remove_read_from(&mut v);
    assert_eq!(v.len(), 2);
    f.mark_as_read("3");
    let mut v = vec![with_id("2"), with_id("3"), with_id("4"), with_id("5")];
    f.remove_read_from(&mut v);
    assert_eq!(ids(&v), vec!["4".to_owned(), "5".to_owned()]);
    let mut v = vec![with_id("8"), with_id("9")];
    f.remove_read_from(&mut v);
    assert_eq!(ids(&v), vec!["8".to_owned(), "9".to_owned()]);
    assert_eq!(f.last_read(), Some("3".to_owned()));
}

#[test]
fn restore_rejects_other_kind() {
    let saved = SavedReadFilter { kind: RfKind::NewerThan, ids: vec!["7".to_owned()] };
    let r = ReadFilter::restore(RfKind::NotPresent, Some(saved));
    assert!(matches!(r, Err(ReadFilterError::KindMismatch { expected: RfKind::NotPresent, found: RfKind::NewerThan })));
}

#[test]
fn restore_same_kind_and_nothing_saved() {
    let saved = SavedReadFilter { kind: RfKind::NotPresent, ids: vec!["a".to_owned(), "b".to_owned(), "a".to_owned()] };
    let rf = ReadFilter::restore(RfKind::NotPresent, Some(saved)).unwrap();
    assert_eq!(rf.to_saved().ids, vec!["a".to_owned(), "b".to_owned()]);
    let saved = SavedReadFilter { kind: RfKind::NewerThan, ids: vec!["a".to_owned(), "b".to_owned()] };
    let rf = ReadFilter::restore(RfKind::NewerThan, Some(saved)).unwrap();
    assert_eq!(rf.last_read(), Some("b".to_owned()));
    let rf = ReadFilter::restore(RfKind::NewerThan, None).unwrap();
    assert_eq!(rf.kind(), RfKind::NewerThan);
    assert_eq!(rf.last_read(), None);
}

fn filters(sender: Option<&str>, subjects: &[&str], excluded: &[&str]) -> EmailFilters {
    EmailFilters {
        sender: sender.map(str::to_owned),
        subjects: if subjects.is_empty() { None } else { Some(subjects.iter().map(|s| s.to_string()).collect()) },
        exclude_subjects: if excluded.is_empty() { None } else { Some(excluded.iter().map(|s| s.to_string()).collect()) },
    }
}

#[test]
fn search_string_lists_every_filter() {
    assert_eq!(filters(None, &[], &[]).search_string(), "UNSEEN");
    assert_eq!(
        filters(Some("a@b.c"), &["News", "Deals"], &["Spam"]).search_string(),
        r#"UNSEEN FROM "a@b.c" SUBJECT "News" SUBJECT "Deals" NOT SUBJECT "Spam""#
    );
}

fn email(remove: bool) -> Email {
    Email::with_password("n".to_owned(), "imap.example.com".to_owned(), "me@example.com".to_owned(), "pw".to_owned(), filters(None, &[], &[]), remove, None)
}

#[test]
fn imap_remove_deletes_exact_uids() {
    let cmds = email(true).commands_after_search(&vec![3, 17]);
    assert_eq!(
        cmds,
        vec![
            ImapCommand::Fetch("3,17".to_owned()),
            ImapCommand::StoreDeleted("3,17".to_owned()),
            ImapCommand::Expunge("3,17".to_owned()),
            ImapCommand::Logout,
        ]
    );
    assert_eq!(email(false).commands_after_search(&vec![42]), vec![ImapCommand::Fetch("42".to_owned()), ImapCommand::Logout]);
    assert!(email(true).commands_after_search(&vec![]).is_empty());
    assert_eq!(join_uids(&vec![0, 4294967295, 10]), "0,4294967295,10");
    assert!(matches!(email(false).auth, Auth::Password(_)));
}

const MAIL: &str = "Subject: Hello\r\nContent-Type: multipart/alternative; boundary=\"b\"\r\n\r\n--b\r\nContent-Type: text/html\r\n\r\n<p>html</p>\r\n--b\r\nContent-Type: text/plain\r\n\r\nplain <script>x()</script>body\r\n-- \r\nfooter text\r\n--b--\r\n";

#[test]
fn email_prefers_plain_part_cuts_footer_and_sanitises() {
    let msg = Email::parse_raw(MAIL.as_bytes(), Some("-- ")).unwrap();
    assert_eq!(msg.title.as_deref(), Some("Hello"));
    assert_eq!(msg.body.as_deref(), Some("plain body\n"));
}

#[test]
fn email_without_subparts_uses_whole_body() {
    let raw = "Content-Type: text/plain\r\n\r\njust <b>text</b>";
    let msg = Email::parse_raw(raw.as_bytes(), None).unwrap();
    assert_eq!(msg.title, None);
    assert_eq!(msg.body.as_deref(), Some("just <b>text</b>"));
}

#[test]
fn email_parse_error() {
    let raw = [0xffu8, b':', b'\n'];
    match Email::parse_raw(&raw, None) {
        Err(EmailError::Parse(_)) | Ok(_) => {}
        Err(e) => panic!("unexpected {e:?}"),
    }
}

#[test]
fn footer_cut_keeps_prefix() {
    assert_eq!(fetcher::text::cut_at("abc--def--", "--"), "abc");
    assert_eq!(fetcher::text::cut_at("abc", "x"), "abc");
    assert_eq!(fetcher::text::cut_at("abc", ""), "");
}

#[test]
fn http_client_error_is_handed_out_once() {
    let mut s = ClientState::Failed("tls".to_owned());
    assert_eq!(s.acquire(), Err(HttpError::TlsInitFailed("tls".to_owned())));
    assert_eq!(s.acquire(), Err(HttpError::ClientNotInitialized));
    let mut s = ClientState::Ready;
    assert_eq!(s.acquire(), Ok(()));
    assert_eq!(s, ClientState::Ready);
}

#[test]
fn http_source_and_follow_link() {
    assert!(Http::new("nope").is_none());
    let h = Http::new("https://EXAMPLE.com/feed").unwrap();
    assert_eq!(h.url, "https://example.com/feed");
    let e = h.entry_from_page("<html/>".to_owned());
    assert_eq!(e.raw_contents.as_deref(), Some("<html/>"));
    assert_eq!(e.msg.link.as_deref(), Some("https://example.com/feed"));

    assert_eq!(Http::transform_target(&e, TransformFromField::MessageLink), Ok("https://example.com/feed".to_owned()));
    assert_eq!(Http::transform_target(&e, TransformFromField::RawContents), Err(HttpTransformError::InvalidUrl("<html/>".to_owned())));
    assert_eq!(Http::transform_target(&Entry::default(), TransformFromField::RawContents), Err(HttpTransformError::MissingUrl(TransformFromField::RawContents)));
    let e = Entry { raw_contents: Some("http://a.b/c".to_owned()), ..Default::default() };
    let target = Http::transform_target(&e, TransformFromField::RawContents).unwrap();
    let e = Http::apply_fetched(e, target, "page".to_owned());
    assert_eq!(e.raw_contents.as_deref(), Some("page"));
    assert_eq!(e.msg.link.as_deref(), Some("http://a.b/c"));
}

#[test]
fn google_token_refreshes_only_when_expired() {
    let cfg = GoogleAuthCfg { client_id: "id".to_owned(), client_secret: "s".to_owned(), refresh_token: "r".to_owned() };
    let mut auth: GoogleAuth = cfg.into_google_auth("tok".to_owned(), 3600, 1000);
    assert_eq!(auth.expires_in, 4600);
    assert_eq!(auth.access_token(4599), Some("tok"));
    assert!(auth.needs_refresh(4600));
    assert_eq!(auth.access_token(4600), None);
    auth.update_access_token("new".to_owned(), u64::MAX, 5000);
    assert_eq!(auth.expires_in, u64::MAX);
    assert_eq!(auth.access_token(6000), Some("new"));
    let form = auth.refresh_form();
    assert_eq!(form[2], ("refresh_token".to_owned(), "r".to_owned()));
    assert_eq!(form[4], ("grant_type".to_owned(), "refresh_token".to_owned()));
}

#[test]
fn job_filter_matching() {
    let f: JobFilter = "News:Daily".parse().unwrap();
    assert_eq!(f, JobFilter { job: "News".to_owned(), task: Some("Daily".to_owned()) });
    assert!(f.job_matches("news"));
    assert!(f.task_matches("News", "DAILY"));
    assert!(!f.task_matches("news", "daily"));
    assert!(!f.task_matches("News", "weekly"));
    let f = JobFilter::parse("news").unwrap();
    assert_eq!(f.task, None);
    assert!(f.task_matches("news", "anything"));
    assert!(JobFilter::parse("a:b:c").is_err());
}

#[test]
fn refresh_times() {
    assert_eq!(parse_duration("1m"), Some(60));
    assert_eq!(parse_duration("10m"), Some(600));
    assert_eq!(parse_duration("2h"), Some(7200));
    assert_eq!(parse_duration("3d"), Some(259200));
    assert_eq!(parse_duration("45s"), Some(45));
    assert_eq!(parse_duration("m"), None);
    assert_eq!(parse_duration("10"), None);
    assert_eq!(parse_duration("1x"), None);
    assert_eq!(parse_duration("99999999999999999999s"), None);
    assert_eq!(parse_time_of_day("09:30"), Some((9, 30)));
    assert_eq!(parse_time_of_day("24:00"), None);
    assert_eq!(parse_time_of_day("9:30"), None);
    assert!(matches!(ConfTimePoint::At("7:1".to_owned()).decode_from_conf(), Err(ConfigError::BadTimePoint(_))));
}

fn leaf(path: &[&str], value: &str) -> DocEntry {
    DocEntry { path: path.iter().map(|s| s.to_string()).collect(), value: value.to_owned() }
}

fn find_value(doc: &[DocEntry], path: &[&str]) -> Option<String> {
    doc.iter().rev().find(|e| e.path.iter().map(|s| s.as_str()).eq(path.iter().copied())).map(|e| e.value.clone())
}

#[test]
fn template_refresh_overridden_by_task() {
    let template = vec![leaf(&["refresh", "every"], "10m"), leaf(&["tag"], "tmpl")];
    let task = vec![leaf(&["refresh", "every"], "1m")];
    let doc = merge_all(vec![template, task]);
    let every = find_value(&doc, &["refresh", "every"]).unwrap();
    assert_eq!(every, "1m");
    assert_eq!(find_value(&doc, &["tag"]).as_deref(), Some("tmpl"));
    assert_eq!(ConfTimePoint::Every(every).decode_from_conf().unwrap(), TimePoint::Every(60));
}

#[test]
fn later_document_replaces_lists_and_tables() {
    let base = vec![leaf(&["process"], "[a, b]"), leaf(&["refresh", "at"], "09:00"), leaf(&["sink"], "stdout")];
    let over = vec![leaf(&["process"], "[c]"), leaf(&["refresh"], "null")];
    let doc = merge(base, over);
    let got: Vec<(Vec<String>, String)> = doc.into_iter().map(|e| (e.path, e.value)).collect();
    assert_eq!(
        got,
        vec![
            (vec!["sink".to_owned()], "stdout".to_owned()),
            (vec!["process".to_owned()], "[c]".to_owned()),
            (vec!["refresh".to_owned()], "null".to_owned()),
        ]
    );
}

#[test]
fn disabled_flag() {
    assert!(disabled(&vec![leaf(&["disabled"], "true")]));
    assert!(!disabled(&vec![leaf(&["disabled"], "false"), leaf(&["x", "disabled"], "true")]));
}

#[test]
fn exit_codes() {
    assert_eq!(exit_code(RunOutcome::Finished), 0);
    assert_eq!(exit_code(RunOutcome::ConfigError), 1);
    assert_eq!(exit_code(RunOutcome::RuntimeError), 2);
    assert_eq!(exit_code(RunOutcome::VerificationFailed), 3);
}

struct External {
    token: bool,
    saved: Option<RfKind>,
}

impl ProvideExternalData for External {
    fn telegram_bot_token(&self) -> ExternalDataResult<String> {
        if self.token { ExternalDataResult::Found("test-bot-token".to_owned()) } else { ExternalDataResult::Unavailable }
    }

    fn email_password(&self) -> ExternalDataResult<String> {
        if self.token { ExternalDataResult::Found("pw".to_owned()) } else { ExternalDataResult::Unavailable }
    }

    fn google_oauth2(&self) -> ExternalDataResult<GoogleAuth> {
        ExternalDataResult::Unavailable
    }

    fn read_filter(&self, _job: &str, _task: Option<&str>, expected: RfKind) -> ExternalDataResult<ReadFilter> {
        match self.saved {
            Some(k) => match ReadFilter::restore(expected, Some(SavedReadFilter { kind: k, ids: vec![] })) {
                Ok(rf) => ExternalDataResult::Found(rf),
                Err(ReadFilterError::KindMismatch { expected, found }) => {
                    ExternalDataResult::Failed(ExternalDataError::ReadFilterIncompatible { expected, found })
                }
            },
            None => ExternalDataResult::Unavailable,
        }
    }

    fn entry_to_msg_map(&self, _job: &str, _task: Option<&str>) -> ExternalDataResult<EntryToMsgMap> {
        ExternalDataResult::Found(EntryToMsgMap::new())
    }
}

fn regex_action(re: &str, action: ConfRegexAction) -> ActionConf {
    ActionConf::Regex(ConfRegex { re: re.to_owned(), action })
}

#[test]
fn regex_config_dispatch() {
    let a: Action<()> = ConfRegex { re: "x".to_owned(), action: ConfRegexAction::Find { in_field: ConfField::Link } }.parse().unwrap();
    assert!(matches!(a, Action::Filter(Filter::Find(_))));
    let a: Action<()> = ConfRegex { re: "x".to_owned(), action: ConfRegexAction::Replace { in_field: ConfField::Title, with: "y".to_owned() } }.parse().unwrap();
    assert!(matches!(a, Action::Transform(Transform::Field { field: Field::Title, kind: Kind::Replace(_) })));
    let a: Action<()> = ConfRegex { re: "x".to_owned(), action: ConfRegexAction::Extract { from_field: ConfField::Body, passthrough_if_not_found: true } }.parse().unwrap();
    assert!(matches!(a, Action::Transform(Transform::Field { field: Field::Body, kind: Kind::Extract(_) })));
    let r: Result<Action<()>, _> = ConfRegex { re: "[".to_owned(), action: ConfRegexAction::Find { in_field: ConfField::Body } }.parse();
    assert!(matches!(r, Err(ConfigError::Regex(_))));
    let t = ConfExtract { from_field: ConfField::Title, re: "(?P<s>a)".to_owned(), passthrough_if_not_found: false }.decode_from_conf().unwrap();
    assert!(matches!(t, Transform::Field { field: Field::Title, kind: Kind::Extract(_) }));
    assert!(matches!(ConfShorten { len: 5 }.parse(), Transform::Field { field: Field::Body, kind: Kind::Shorten(s) } if s.len == 5));
    assert!(matches!(ConfTrim { field: ConfField::Link }.parse(), Transform::Field { field: Field::Link, kind: Kind::Trim }));
    let acts: Result<Vec<Action<()>>, _> = decode_actions(vec![ActionConf::Feed, regex_action("(", ConfRegexAction::Find { in_field: ConfField::Body })]);
    assert!(acts.is_err());
}

#[test]
fn telegram_sink_config() {
    let ext = External { token: true, saved: None };
    let t = Telegram { chat_id: -5, link_location: None }.decode_from_conf(&ext).unwrap();
    assert_eq!((t.chat_id, t.link_location, t.token.as_str()), (-5, CLinkLocation::PreferTitle, "test-bot-token"));
    let t = Telegram { chat_id: 1, link_location: Some(LinkLocation::Bottom) }.decode_from_conf(&ext).unwrap();
    assert_eq!(t.link_location, CLinkLocation::Bottom);
    let missing = External { token: false, saved: None };
    assert!(matches!(Telegram { chat_id: 1, link_location: None }.decode_from_conf(&missing), Err(ConfigError::TelegramBotTokenMissing)));
    assert_eq!(LinkLocation::PreferTitle.decode_from_conf(), CLinkLocation::PreferTitle);
}

#[test]
fn html_query_config() {
    let q = ElementQuery {
        kind: ElementKind::Attr(ElementAttr { name: "id".to_owned(), value: "x".to_owned() }),
        ignore: Some(vec![ElementKind::Tag("nav".to_owned()), ElementKind::Class("ad".to_owned())]),
    };
    let dq = ElementDataQuery {
        optional: None,
        query: vec![q, ElementQuery { kind: ElementKind::Class("post".to_owned()), ignore: None }],
        data_location: DataLocation::Attr("href".to_owned()),
        regex: Some(HtmlQueryRegex { re: "a".to_owned(), replace_with: "b".to_owned() }),
    };
    let c = dq.decode_from_conf().unwrap();
    assert!(!c.optional);
    assert_eq!(c.data_location, query::DataLocation::Attr("href".to_owned()));
    assert_eq!(c.query[0].kind, query::ElementKind::Attr { name: "id".to_owned(), value: "x".to_owned() });
    assert_eq!(c.query[0].ignore, Some(vec![query::ElementKind::Tag("nav".to_owned()), query::ElementKind::Class("ad".to_owned())]));
    assert_eq!(c.query[1].kind, query::ElementKind::Class("post".to_owned()));
    assert_eq!(c.regex.unwrap().replace("banana"), "bbnbnb");
    assert!(HtmlQueryRegex { re: "(".to_owned(), replace_with: "".to_owned() }.decode_from_conf().is_err());

    let old = fetcher::config::tasks::ElementDataQuery {
        optional: Some(true),
        query: vec![fetcher::config::tasks::ElementQuery {
            kind: fetcher::config::tasks::ElementKind::Attr { name: "n".to_owned(), value: "v".to_owned() },
            ignore: None,
        }],
        data_location: fetcher::config::tasks::DataLocation::Text,
        regex: None,
    };
    let c = old.parse().unwrap();
    assert!(c.optional);
    assert_eq!(c.query[0].kind, query::ElementKind::Attr { name: "n".to_owned(), value: "v".to_owned() });
    assert_eq!(c.data_location, query::DataLocation::Text);
}

#[test]
fn entry_to_msg_map_round_trip() {
    let conf = ConfMap(vec![(EntryId("a".to_owned()), ConfMessageId(1)), (EntryId("b".to_owned()), ConfMessageId(2))]);
    let map = conf.decode_from_conf();
    assert_eq!(map.get("b"), Some(MessageId(2)));
    assert_eq!(map.get("c"), None);
    let back = ConfMap::encode_into_conf(map);
    assert_eq!(back.0, vec![(EntryId("a".to_owned()), ConfMessageId(1)), (EntryId("b".to_owned()), ConfMessageId(2))]);
    assert_eq!(EntryId::encode_into_conf(EntryId("z".to_owned()).decode_from_conf()), EntryId("z".to_owned()));
    assert_eq!(ConfMessageId::encode_into_conf(ConfMessageId(-3).decode_from_conf()), ConfMessageId(-3));
}

fn conf_task(tag: Option<&str>) -> ConfTask {
    ConfTask { read_filter_kind: None, tag: tag.map(str::to_owned), source: None, actions: None, entry_to_msg_map_enabled: None, sink: None }
}

fn job(tasks: Option<Vec<(String, ConfTask)>>) -> Job {
    Job {
        read_filter_kind: Some(RfKind::NotPresent),
        tag: None,
        source: Some(ConfSource::Http { url: "https://example.com".to_owned() }),
        actions: Some(vec![ActionConf::Feed, ActionConf::Caps(ConfField::Title)]),
        entry_to_msg_map_enabled: None,
        sink: Some(ConfSink::Stdout),
        tasks,
        refresh: Some(ConfTimePoint::Every("5m".to_owned())),
        disabled: None,
        templates: None,
    }
}

#[test]
fn job_without_tasks_is_one_task() {
    let ext = External { token: true, saved: Some(RfKind::NotPresent) };
    let j = job(None).decode_from_conf("news", &ext).unwrap();
    assert_eq!(j.tasks.len(), 1);
    assert!(j.task_names.is_none());
    assert_eq!(j.refresh_time, Some(TimePoint::Every(300)));
    let t = &j.tasks[0];
    assert_eq!(t.tag, None);
    assert_eq!(t.actions.as_ref().unwrap().len(), 3);
    assert!(matches!(t.actions.as_ref().unwrap()[2], Action::Sink(_)));
    assert_eq!(t.read_filter.as_ref().unwrap().kind(), RfKind::NotPresent);
    assert!(t.entry_to_msg_map.is_none());
}

#[test]
fn job_tasks_take_job_defaults_and_name_tags() {
    let ext = External { token: true, saved: None };
    let mut own = conf_task(Some("custom"));
    own.source = Some(ConfSource::Twitter { handle: "h".to_owned() });
    let j = job(Some(vec![("first".to_owned(), conf_task(None)), ("second".to_owned(), own)])).decode_from_conf("news", &ext).unwrap();
    assert_eq!(j.task_names, Some(vec!["first".to_owned(), "second".to_owned()]));
    assert_eq!(j.tasks[0].tag.as_deref(), Some("first"));
    assert_eq!(j.tasks[1].tag.as_deref(), Some("custom"));
    assert_eq!(j.tasks[0].source, Some(ConfSource::Http { url: "https://example.com".to_owned() }));
    assert_eq!(j.tasks[1].source, Some(ConfSource::Twitter { handle: "h".to_owned() }));
    assert!(j.tasks[0].entry_to_msg_map.is_none());
    assert!(j.tasks[1].entry_to_msg_map.is_some());
    assert_eq!(j.tasks[0].actions.as_ref().unwrap().len(), 3);
    assert!(j.tasks[0].read_filter.is_none());
}

#[test]
fn job_read_filter_kind_mismatch_fails() {
    let ext = External { token: true, saved: Some(RfKind::NewerThan) };
    let r = job(None).decode_from_conf("news", &ext);
    assert!(matches!(r, Err(ConfigError::External(ExternalDataError::ReadFilterIncompatible { .. }))));
}

#[test]
fn job_bad_regex_fails() {
    let ext = External { token: true, saved: None };
    let mut j = job(None);
    j.actions = Some(vec![regex_action("(", ConfRegexAction::Find { in_field: ConfField::Title })]);
    assert!(matches!(j.decode_from_conf("news", &ext), Err(ConfigError::Regex(_))));
}

#[test]
fn xoauth2_and_field_names() {
    assert_eq!(fetcher::email::xoauth2_response("me@x.y", "tok"), "user=me@x.y\x01auth=Bearer tok\x01\x01");
    assert_eq!(TransformFromField::MessageLink.describe(), "message's link");
    assert_eq!(TransformFromField::RawContents.describe(), "raw_contents");
    let auth = GoogleAuthCfg { client_id: "i".to_owned(), client_secret: "s".to_owned(), refresh_token: "r".to_owned() }.into_google_auth("t".to_owned(), 1, 0);
    let e = Email::with_google_oauth2("n".to_owned(), "imap".to_owned(), "e".to_owned(), auth, filters(None, &[], &[]), false, Some("--".to_owned()));
    assert!(matches!(e.auth, Auth::GmailOAuth2(_)));
    assert_eq!(e.footer.as_deref(), Some("--"));
}

fn email_conf(google_oauth2: bool) -> fetcher::config::jobs::EmailConf {
    fetcher::config::jobs::EmailConf {
        imap: "imap.example.com".to_owned(),
        email: "me@example.com".to_owned(),
        google_oauth2,
        sender: Some("news@example.com".to_owned()),
        subjects: Some(vec!["Digest".to_owned()]),
        exclude_subjects: None,
        remove: true,
        footer: None,
    }
}

#[test]
fn email_source_config_needs_credentials() {
    let ext = External { token: true, saved: None };
    let e = email_conf(false).decode_from_conf("inbox".to_owned(), &ext).unwrap();
    assert!(matches!(&e.auth, Auth::Password(p) if p == "pw"));
    assert_eq!(e.filters.search_string(), r#"UNSEEN FROM "news@example.com" SUBJECT "Digest""#);
    assert!(e.remove);
    let none = External { token: false, saved: None };
    assert!(matches!(email_conf(false).decode_from_conf("inbox".to_owned(), &none), Err(ConfigError::EmailPasswordMissing)));
    assert!(matches!(email_conf(true).decode_from_conf("inbox".to_owned(), &ext), Err(ConfigError::GoogleOAuth2Missing)));
    assert_eq!(ConfSource::Email(email_conf(false)).duplicate(), ConfSource::Email(email_conf(false)));
}

#[test]
fn shared_source_list_must_be_uniform() {
    use_shared_sources();
}

fn use_shared_sources() {
    let http = || fetcher::source::WithSharedRFKind::Http(Http::new("https://example.com").unwrap());
    let file = || fetcher::source::WithSharedRFKind::File { path: "a".to_owned() };
    assert!(matches!(fetcher::source::WithSharedRF::new(vec![]), Err(fetcher::source::SourceError::EmptySourceList)));
    assert!(matches!(
        fetcher::source::WithSharedRF::new(vec![http(), file()]),
        Err(fetcher::source::SourceError::SourceListHasDifferentVariants)
    ));
    let ok = fetcher::source::WithSharedRF::new(vec![file(), file()]).unwrap();
    assert_eq!(ok.sources().len(), 2);
}

#[test]
fn mark_all_keeps_most_recent_within_cap() {
    let mut f = ReadFilterNotPresent::new();
    let ids: Vec<String> = (0..NOT_PRESENT_CAP + 3).map(|i| format!("id{i}")).collect();
    f.mark_all_as_read(&ids);
    assert_eq!(f.ids(), ids[3..].to_vec());
}

#[test]
fn wait_until_time_of_day() {
    assert_eq!(fetcher::timepoint::seconds_until(TimePoint::Every(90), 12345), 90);
    assert_eq!(fetcher::timepoint::seconds_until(TimePoint::At { hour: 1, minute: 0 }, 0), 3600);
    assert_eq!(fetcher::timepoint::seconds_until(TimePoint::At { hour: 0, minute: 0 }, 86400 * 3), 86400);
    assert_eq!(fetcher::timepoint::seconds_until(TimePoint::At { hour: 0, minute: 30 }, 86400 + 3600), 84600);
}
