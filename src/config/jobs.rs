//! Job and task configuration, and its decoding into runtime objects.

use vstd::prelude::*;
use crate::config::{
    ConfigError, ExternalDataResult, Field, ProvideExternalData, field_of_conf,
};
use crate::entry::EntryId as CEntryId;
use crate::field::{Kind as CFieldKind, Shorten as CShorten};
use crate::query as c_query;
use crate::read_filter::{Kind as ReadFilterKind, ReadFilter, rf_kind};
use crate::regex_action::{Extract as CExtract, Find as CFind, Regex as CRegex, Replace as CReplace, regex_compiles};
use crate::sink::{LinkLocation as CLinkLocation, MessageId as CMessageId, Telegram as CTelegram};
use crate::task::{Action as CAction, EntryToMsgMap as CEntryToMsgMap, Filter as CFilter};
use crate::timepoint::{TimePoint as CTimePoint, duration_secs, parse_duration, parse_time_of_day, time_of_day};
use crate::task::Task as CTask;
use crate::entry::opt_view;
use crate::transform::{EntryKind, Feed, Transform as CTransform, UseRawContents};

verus! {

/// Extract the capture group `s` of a regex from a field.
#[derive(Debug, Clone)]
pub struct Extract {
    pub from_field: Field,
    pub re: String,
    pub passthrough_if_not_found: bool,
}

impl Extract {
    pub fn decode_from_conf(self) -> (r: Result<CTransform, ConfigError>)
        ensures
            r is Ok <==> regex_compiles(self.re@),
            r matches Ok(t) ==> (t matches CTransform::Field { field, kind: CFieldKind::Extract(re) }
                && field == field_of_conf(self.from_field) && re.spec_pattern() == self.re@
                && re.spec_action().passthrough_if_not_found == self.passthrough_if_not_found),
            r is Err ==> r matches Err(ConfigError::Regex(_)),
    {
        let field = self.from_field.decode_from_conf();
        match CRegex::new(self.re.as_str(), CExtract { passthrough_if_not_found: self.passthrough_if_not_found }) {
            Ok(re) => Ok(CTransform::Field { field, kind: CFieldKind::Extract(re) }),
            Err(e) => Err(ConfigError::Regex(e)),
        }
    }
}

/// What a regex does.
#[derive(Debug, Clone)]
pub enum Action {
    Find { in_field: Field },
    Extract { from_field: Field, passthrough_if_not_found: bool },
    Replace { in_field: Field, with: String },
}

/// A regex and what it does.
#[derive(Debug, Clone)]
pub struct Regex {
    pub re: String,
    pub action: Action,
}

impl Regex {
    /// `find` becomes a filter on its field; `extract` and `replace` become field
    /// transforms.
    pub fn parse<S>(self) -> (r: Result<CAction<S>, ConfigError>)
        ensures
            r is Ok <==> regex_compiles(self.re@),
            r is Err ==> r matches Err(ConfigError::Regex(_)),
            r matches Ok(a) ==> match self.action {
                Action::Find { in_field } => a matches CAction::Filter(CFilter::Find(re))
                    && re.spec_pattern() == self.re@ && re.spec_action().in_field == field_of_conf(in_field),
                Action::Extract { from_field, passthrough_if_not_found } =>
                    a matches CAction::Transform(CTransform::Field { field, kind: CFieldKind::Extract(re) })
                    && field == field_of_conf(from_field) && re.spec_pattern() == self.re@
                    && re.spec_action().passthrough_if_not_found == passthrough_if_not_found,
                Action::Replace { in_field, with } =>
                    a matches CAction::Transform(CTransform::Field { field, kind: CFieldKind::Replace(re) })
                    && field == field_of_conf(in_field) && re.spec_pattern() == self.re@
                    && re.spec_action().with == with,
            },
    {
        let re = self.re;
        match self.action {
            Action::Find { in_field } => match CRegex::new(re.as_str(), CFind { in_field: in_field.parse() }) {
                Ok(x) => Ok(CAction::Filter(CFilter::Find(x))),
                Err(e) => Err(ConfigError::Regex(e)),
            },
            Action::Extract { from_field, passthrough_if_not_found } => match CRegex::new(
                re.as_str(),
                CExtract { passthrough_if_not_found },
            ) {
                Ok(x) => Ok(CAction::Transform(CTransform::Field { field: from_field.parse(), kind: CFieldKind::Extract(x) })),
                Err(e) => Err(ConfigError::Regex(e)),
            },
            Action::Replace { in_field, with } => match CRegex::new(re.as_str(), CReplace { with }) {
                Ok(x) => Ok(CAction::Transform(CTransform::Field { field: in_field.parse(), kind: CFieldKind::Replace(x) })),
                Err(e) => Err(ConfigError::Regex(e)),
            },
        }
    }
}

/// Shorten the body to `len` characters.
#[derive(Debug, Clone, Copy)]
pub struct Shorten {
    pub len: usize,
}

impl Shorten {
    pub fn parse(self) -> (r: CTransform)
        ensures
            r matches CTransform::Field { field, kind: CFieldKind::Shorten(s) } && field == crate::field::Field::Body && s.len == self.len,
    {
        CTransform::Field { field: crate::field::Field::Body, kind: CFieldKind::Shorten(CShorten { len: self.len }) }
    }
}

/// Strip whitespace from both ends of a field.
#[derive(Debug, Clone, Copy)]
pub struct Trim {
    pub field: Field,
}

impl Trim {
    pub fn parse(self) -> (r: CTransform)
        ensures
            r matches CTransform::Field { field, kind: CFieldKind::Trim } && field == field_of_conf(self.field),
    {
        CTransform::Field { field: self.field.parse(), kind: CFieldKind::Trim }
    }
}

/// One action of a task as configured.
#[derive(Debug, Clone)]
pub enum ActionConf {
    Regex(Regex),
    Extract(Extract),
    Trim(Trim),
    Shorten(Shorten),
    Caps(Field),
    Feed,
    UseRawContents(Field),
}

/// Whether an action's configuration decodes: those with a regex need one that compiles.
pub open spec fn action_decodes(a: ActionConf) -> bool {
    match a {
        ActionConf::Regex(r) => regex_compiles(r.re@),
        ActionConf::Extract(e) => regex_compiles(e.re@),
        _ => true,
    }
}

/// Whether `a` is what the configured action `c` decodes to.
pub open spec fn decodes_to<S>(c: ActionConf, a: CAction<S>) -> bool {
    match c {
        ActionConf::Regex(r) => match r.action {
            Action::Find { in_field } => a matches CAction::Filter(CFilter::Find(re))
                && re.spec_pattern() == r.re@ && re.spec_action().in_field == field_of_conf(in_field),
            Action::Extract { from_field, passthrough_if_not_found } =>
                a matches CAction::Transform(CTransform::Field { field, kind: CFieldKind::Extract(re) })
                && field == field_of_conf(from_field) && re.spec_pattern() == r.re@
                && re.spec_action().passthrough_if_not_found == passthrough_if_not_found,
            Action::Replace { in_field, with } =>
                a matches CAction::Transform(CTransform::Field { field, kind: CFieldKind::Replace(re) })
                && field == field_of_conf(in_field) && re.spec_pattern() == r.re@ && re.spec_action().with == with,
        },
        ActionConf::Extract(e) => a matches CAction::Transform(CTransform::Field { field, kind: CFieldKind::Extract(re) })
            && field == field_of_conf(e.from_field) && re.spec_pattern() == e.re@
            && re.spec_action().passthrough_if_not_found == e.passthrough_if_not_found,
        ActionConf::Trim(t) => a matches CAction::Transform(CTransform::Field { field, kind: CFieldKind::Trim })
            && field == field_of_conf(t.field),
        ActionConf::Shorten(sh) => a matches CAction::Transform(CTransform::Field { field, kind: CFieldKind::Shorten(x) })
            && field == crate::field::Field::Body && x.len == sh.len,
        ActionConf::Caps(f) => a matches CAction::Transform(CTransform::Field { field, kind: CFieldKind::Caps })
            && field == field_of_conf(f),
        ActionConf::Feed => a matches CAction::Transform(CTransform::Entry(EntryKind::Feed(_))),
        ActionConf::UseRawContents(f) => a matches CAction::Transform(CTransform::Entry(EntryKind::UseRawContents(u)))
            && u.field == field_of_conf(f),
    }
}

impl ActionConf {
    pub fn decode_from_conf<S>(self) -> (r: Result<CAction<S>, ConfigError>)
        ensures
            r is Ok <==> action_decodes(self),
            r matches Ok(a) ==> decodes_to(self, a),
            r is Err ==> r matches Err(ConfigError::Regex(_)),
    {
        match self {
            ActionConf::Regex(r) => r.parse(),
            ActionConf::Extract(e) => match e.decode_from_conf() {
                Ok(t) => Ok(CAction::Transform(t)),
                Err(err) => Err(err),
            },
            ActionConf::Trim(t) => Ok(CAction::Transform(t.parse())),
            ActionConf::Shorten(s) => Ok(CAction::Transform(s.parse())),
            ActionConf::Caps(f) => Ok(CAction::Transform(CTransform::Field { field: f.parse(), kind: CFieldKind::Caps })),
            ActionConf::Feed => Ok(CAction::Transform(CTransform::Entry(EntryKind::Feed(Feed)))),
            ActionConf::UseRawContents(f) => Ok(CAction::Transform(CTransform::Entry(EntryKind::UseRawContents(UseRawContents { field: f.parse() })))),
        }
    }
}

#[derive(Debug, Clone)]
pub enum ElementKind {
    Tag(String),
    Class(String),
    Attr(ElementAttr),
}

#[derive(Debug, Clone)]
pub struct ElementAttr {
    pub name: String,
    pub value: String,
}

#[derive(Debug, Clone)]
pub enum DataLocation {
    Text,
    Attr(String),
}

#[derive(Debug, Clone)]
pub struct ElementQuery {
    pub kind: ElementKind,
    pub ignore: Option<Vec<ElementKind>>,
}

/// Which elements are the items of a page: queries applied as nested refinements.
#[derive(Debug, Clone)]
pub struct ItemQuery {
    pub query: Vec<ElementQuery>,
}

#[derive(Debug, Clone)]
pub struct ElementDataQuery {
    pub optional: Option<bool>,
    pub query: Vec<ElementQuery>,
    pub data_location: DataLocation,
    pub regex: Option<HtmlQueryRegex>,
}

#[derive(Debug, Clone)]
pub struct HtmlQueryRegex {
    pub re: String,
    pub replace_with: String,
}

pub open spec fn kind_of_conf(k: ElementKind) -> c_query::ElementKind {
    match k {
        ElementKind::Tag(v) => c_query::ElementKind::Tag(v),
        ElementKind::Class(v) => c_query::ElementKind::Class(v),
        ElementKind::Attr(a) => c_query::ElementKind::Attr { name: a.name, value: a.value },
    }
}

pub open spec fn ignore_of_conf(q: ElementQuery) -> Option<Seq<c_query::ElementKind>> {
    match q.ignore {
        Some(v) => Some(Seq::new(v@.len(), |i: int| kind_of_conf(v@[i]))),
        None => None,
    }
}

pub open spec fn ignore_view(i: Option<Vec<c_query::ElementKind>>) -> Option<Seq<c_query::ElementKind>> {
    match i {
        Some(v) => Some(v@),
        None => None,
    }
}

pub open spec fn location_of_conf(l: DataLocation) -> c_query::DataLocation {
    match l {
        DataLocation::Text => c_query::DataLocation::Text,
        DataLocation::Attr(v) => c_query::DataLocation::Attr(v),
    }
}

impl ElementKind {
    pub fn decode_from_conf(self) -> (r: c_query::ElementKind)
        ensures
            r == kind_of_conf(self),
    {
        match self {
            ElementKind::Tag(val) => c_query::ElementKind::Tag(val),
            ElementKind::Class(val) => c_query::ElementKind::Class(val),
            ElementKind::Attr(ElementAttr { name, value }) => c_query::ElementKind::Attr { name, value },
        }
    }
}

impl DataLocation {
    pub fn decode_from_conf(self) -> (r: c_query::DataLocation)
        ensures
            r == location_of_conf(self),
    {
        match self {
            DataLocation::Text => c_query::DataLocation::Text,
            DataLocation::Attr(v) => c_query::DataLocation::Attr(v),
        }
    }
}

/// Decodes every element kind, in order.
pub fn decode_kinds(v: Vec<ElementKind>) -> (r: Vec<c_query::ElementKind>)
    ensures
        r@.len() == v@.len(),
        forall|i: int| 0 <= i < v@.len() ==> #[trigger] r@[i] == kind_of_conf(v@[i]),
{
    let ghost orig = v@;
    let mut v = v;
    let mut rev: Vec<c_query::ElementKind> = Vec::new();
    while v.len() > 0
        invariant
            v@.len() + rev@.len() == orig.len(),
            v@ == orig.take(v@.len() as int),
            forall|j: int| 0 <= j < rev@.len() ==> #[trigger] rev@[j] == kind_of_conf(orig[orig.len() - 1 - j]),
        decreases v.len(),
    {
        let ghost n = v@.len();
        let k = v.pop().unwrap();
        assert(k == orig[n - 1]);
        assert(v@ =~= orig.take(n - 1));
        rev.push(k.decode_from_conf());
    }
    let mut r: Vec<c_query::ElementKind> = Vec::new();
    while rev.len() > 0
        invariant
            r@.len() + rev@.len() == orig.len(),
            forall|j: int| 0 <= j < rev@.len() ==> #[trigger] rev@[j] == kind_of_conf(orig[orig.len() - 1 - j]),
            forall|j: int| 0 <= j < r@.len() ==> #[trigger] r@[j] == kind_of_conf(orig[j]),
        decreases rev.len(),
    {
        let k = rev.pop().unwrap();
        r.push(k);
    }
    r
}

impl ElementQuery {
    pub fn decode_from_conf(self) -> (r: c_query::ElementQuery)
        ensures
            r.kind == kind_of_conf(self.kind),
            ignore_view(r.ignore) == ignore_of_conf(self),
    {
        let ignore = match self.ignore {
            Some(v) => {
                let d = decode_kinds(v);
                assert(d@ =~= Seq::new(v@.len(), |i: int| kind_of_conf(v@[i])));
                Some(d)
            },
            None => None,
        };
        c_query::ElementQuery { kind: self.kind.decode_from_conf(), ignore }
    }
}

impl HtmlQueryRegex {
    pub fn decode_from_conf(self) -> (r: Result<CRegex<CReplace>, ConfigError>)
        ensures
            r is Ok <==> regex_compiles(self.re@),
            r matches Ok(x) ==> x.spec_pattern() == self.re@ && x.spec_action().with == self.replace_with,
    {
        match CRegex::new(self.re.as_str(), CReplace { with: self.replace_with }) {
            Ok(x) => Ok(x),
            Err(e) => Err(ConfigError::Regex(e)),
        }
    }
}

impl ElementDataQuery {
    pub fn decode_from_conf(self) -> (r: Result<c_query::ElementDataQuery, ConfigError>)
        ensures
            r is Ok <==> match self.regex {
                Some(re) => regex_compiles(re.re@),
                None => true,
            },
            r matches Ok(q) ==> q.optional == (self.optional == Some(true))
                && q.data_location == location_of_conf(self.data_location)
                && q.query@.len() == self.query@.len()
                && (forall|i: int| 0 <= i < q.query@.len() ==> (#[trigger] q.query@[i]).kind == kind_of_conf(self.query@[i].kind)
                    && ignore_view(q.query@[i].ignore) == ignore_of_conf(self.query@[i]))
                && (q.regex is Some <==> self.regex is Some),
    {
        let optional = match self.optional {
            Some(b) => b,
            None => false,
        };
        let regex = match self.regex {
            Some(re) => match re.decode_from_conf() {
                Ok(x) => Some(x),
                Err(e) => {
                    return Err(e);
                },
            },
            None => None,
        };
        let ghost qs = self.query@;
        let mut src = self.query;
        let mut rev: Vec<c_query::ElementQuery> = Vec::new();
        while src.len() > 0
            invariant
                src@.len() + rev@.len() == qs.len(),
                src@ == qs.take(src@.len() as int),
                forall|j: int| 0 <= j < rev@.len() ==> (#[trigger] rev@[j]).kind == kind_of_conf(qs[qs.len() - 1 - j].kind)
                    && ignore_view(rev@[j].ignore) == ignore_of_conf(qs[qs.len() - 1 - j]),
            decreases src.len(),
        {
            let ghost n = src@.len();
            let q = src.pop().unwrap();
            assert(q == qs[n - 1]);
            assert(src@ =~= qs.take(n - 1));
            rev.push(q.decode_from_conf());
        }
        let mut query: Vec<c_query::ElementQuery> = Vec::new();
        while rev.len() > 0
            invariant
                query@.len() + rev@.len() == qs.len(),
                forall|j: int| 0 <= j < rev@.len() ==> (#[trigger] rev@[j]).kind == kind_of_conf(qs[qs.len() - 1 - j].kind)
                    && ignore_view(rev@[j].ignore) == ignore_of_conf(qs[qs.len() - 1 - j]),
                forall|j: int| 0 <= j < query@.len() ==> (#[trigger] query@[j]).kind == kind_of_conf(qs[j].kind)
                    && ignore_view(query@[j].ignore) == ignore_of_conf(qs[j]),
            decreases rev.len(),
        {
            let q = rev.pop().unwrap();
            query.push(q);
        }
        Ok(c_query::ElementDataQuery { optional, query, data_location: self.data_location.decode_from_conf(), regex })
    }
}

/// Where a message's link goes, as configured.
#[derive(Debug, Clone, Copy, PartialEq, Eq, Structural)]
pub enum LinkLocation {
    PreferTitle,
    Bottom,
}

impl LinkLocation {
    pub fn decode_from_conf(self) -> (r: CLinkLocation)
        ensures
            r == match self {
                LinkLocation::PreferTitle => CLinkLocation::PreferTitle,
                LinkLocation::Bottom => CLinkLocation::Bottom,
            },
    {
        match self {
            LinkLocation::PreferTitle => CLinkLocation::PreferTitle,
            LinkLocation::Bottom => CLinkLocation::Bottom,
        }
    }
}

/// Delivery to a Telegram chat, as configured.
#[derive(Debug, Clone, Copy)]
pub struct Telegram {
    pub chat_id: i64,
    pub link_location: Option<LinkLocation>,
}

/// The Telegram sink made of its configuration and the bot token lookup's outcome.
pub open spec fn telegram_of(t: Telegram, token: ExternalDataResult<String>) -> Result<CTelegram, ()> {
    match token {
        ExternalDataResult::Found(tok) => Ok(CTelegram {
            token: tok,
            chat_id: t.chat_id,
            link_location: match t.link_location {
                Some(LinkLocation::Bottom) => CLinkLocation::Bottom,
                _ => CLinkLocation::PreferTitle,
            },
        }),
        _ => Err(()),
    }
}

impl Telegram {
    /// The sink, given what looking up the bot token gave: a missing token is an error,
    /// and the link goes with the title unless configured otherwise.
    pub fn decode_with_token(self, token: ExternalDataResult<String>) -> (r: Result<CTelegram, ConfigError>)
        ensures
            match telegram_of(self, token) {
                Ok(t) => r == Ok::<CTelegram, ConfigError>(t),
                Err(_) => r is Err,
            },
            token is Unavailable ==> r matches Err(ConfigError::TelegramBotTokenMissing),
            token matches ExternalDataResult::Failed(e) ==> (r matches Err(ConfigError::External(e2)) && e2 == e),
    {
        let tok = match token {
            ExternalDataResult::Found(v) => v,
            ExternalDataResult::Unavailable => {
                return Err(ConfigError::TelegramBotTokenMissing);
            },
            ExternalDataResult::Failed(e) => {
                return Err(ConfigError::External(e));
            },
        };
        let link_location = match self.link_location {
            Some(l) => l.decode_from_conf(),
            None => CLinkLocation::PreferTitle,
        };
        Ok(CTelegram { token: tok, chat_id: self.chat_id, link_location })
    }

    /// The sink, with the bot token looked up in `external`.
    pub fn decode_from_conf<D: ProvideExternalData>(self, external: &D) -> (r: Result<CTelegram, ConfigError>)
        ensures
            r matches Ok(t) ==> t.chat_id == self.chat_id,
    {
        let token = external.telegram_bot_token();
        self.decode_with_token(token)
    }
}

/// An entry id as persisted.
#[derive(Debug, Clone, PartialEq, Eq)]
pub struct EntryId(pub String);

/// A message id as persisted.
#[derive(Debug, Clone, Copy, PartialEq, Eq)]
pub struct MessageId(pub i64);

/// The entry-to-message map as persisted: its records, oldest first.
#[derive(Debug)]
pub struct EntryToMsgMap(pub Vec<(EntryId, MessageId)>);

impl EntryId {
    pub fn decode_from_conf(self) -> (r: CEntryId)
        ensures
            r.0 == self.0,
    {
        CEntryId(self.0)
    }

    pub fn encode_into_conf(eid: CEntryId) -> (r: Self)
        ensures
            r.0 == eid.0,
    {
        EntryId(eid.0)
    }
}

impl MessageId {
    pub fn decode_from_conf(self) -> (r: CMessageId)
        ensures
            r.0 == self.0,
    {
        CMessageId(self.0)
    }

    pub fn encode_into_conf(msgid: CMessageId) -> (r: Self)
        ensures
            r.0 == msgid.0,
    {
        MessageId(msgid.0)
    }
}

/// The records of a persisted map.
pub open spec fn conf_pairs(v: Seq<(EntryId, MessageId)>) -> Seq<(Seq<char>, i64)> {
    Seq::new(v.len(), |i: int| (v[i].0.0@, v[i].1.0))
}

impl EntryToMsgMap {
    pub fn decode_from_conf(self) -> (r: CEntryToMsgMap)
        ensures
            r.spec_pairs() == conf_pairs(self.0@),
    {
        let ghost ps = conf_pairs(self.0@);
        let mut m = CEntryToMsgMap::new();
        let mut i: usize = 0;
        proof {
            m.lemma_empty_pairs();
        }
        while i < self.0.len()
            invariant
                i <= self.0@.len(),
                ps == conf_pairs(self.0@),
                m.spec_pairs() == ps.take(i as int),
            decreases self.0.len() - i,
        {
            let eid = EntryId(self.0[i].0.0.clone());
            let mid = self.0[i].1;
            m.insert(eid.decode_from_conf().0, mid.decode_from_conf());
            assert(m.spec_pairs() =~= ps.take(i + 1));
            i = i + 1;
        }
        assert(ps.take(i as int) =~= ps);
        m
    }

    pub fn encode_into_conf(map: CEntryToMsgMap) -> (r: Self)
        ensures
            conf_pairs(r.0@) == map.spec_pairs(),
    {
        let pairs = map.to_pairs();
        let mut r: Vec<(EntryId, MessageId)> = Vec::new();
        let mut i: usize = 0;
        while i < pairs.len()
            invariant
                i <= pairs@.len(),
                Seq::new(pairs@.len(), |i: int| (pairs@[i].0@, pairs@[i].1.0)) == map.spec_pairs(),
                r@.len() == i,
                forall|j: int| 0 <= j < i ==> (#[trigger] r@[j]).0.0@ == pairs@[j].0@ && r@[j].1.0 == pairs@[j].1.0,
            decreases pairs.len() - i,
        {
            r.push((EntryId::encode_into_conf(CEntryId(pairs[i].0.clone())), MessageId::encode_into_conf(pairs[i].1)));
            i = i + 1;
        }
        assert(conf_pairs(r@) =~= map.spec_pairs());
        EntryToMsgMap(r)
    }
}

/// Decoding a persisted entry-to-message map and encoding it back gives the same records.
pub proof fn lemma_entry_to_msg_map_round_trip(conf: Seq<(EntryId, MessageId)>, decoded: CEntryToMsgMap, encoded: Seq<(EntryId, MessageId)>)
    requires
        decoded.spec_pairs() == conf_pairs(conf),
        conf_pairs(encoded) == decoded.spec_pairs(),
    ensures
        conf_pairs(encoded) == conf_pairs(conf),
        forall|k: Seq<char>| crate::task::lookup(conf_pairs(encoded), k) == decoded.spec_get(k),
{
}

/// Decoding a persisted entry id and encoding it back gives the same id.
pub proof fn lemma_entry_id_round_trip(conf: EntryId, decoded: CEntryId, encoded: EntryId)
    requires
        decoded.0 == conf.0,
        encoded.0 == decoded.0,
    ensures
        encoded == conf,
{
}

/// Decoding a persisted message id and encoding it back gives the same id.
pub proof fn lemma_message_id_round_trip(conf: MessageId, decoded: CMessageId, encoded: MessageId)
    requires
        decoded.0 == conf.0,
        encoded.0 == decoded.0,
    ensures
        encoded == conf,
{
}

/// When a job runs again, as configured.
#[derive(Debug, Clone)]
pub enum TimePoint {
    /// A duration such as `10m`.
    Every(String),
    /// A time of day such as `09:30`.
    At(String),
}

/// The refresh time a configured one denotes.
pub open spec fn time_point_of(t: TimePoint) -> Option<CTimePoint> {
    match t {
        TimePoint::Every(d) => match duration_secs(d@) {
            Some(secs) => Some(CTimePoint::Every(secs)),
            None => None,
        },
        TimePoint::At(a) => match time_of_day(a@) {
            Some((hour, minute)) => Some(CTimePoint::At { hour, minute }),
            None => None,
        },
    }
}

impl TimePoint {
    pub fn duplicate(&self) -> (r: TimePoint)
        ensures
            r == *self,
    {
        match self {
            TimePoint::Every(d) => TimePoint::Every(d.clone()),
            TimePoint::At(a) => TimePoint::At(a.clone()),
        }
    }

    pub fn decode_from_conf(self) -> (r: Result<CTimePoint, ConfigError>)
        ensures
            match time_point_of(self) {
                Some(t) => r == Ok::<CTimePoint, ConfigError>(t),
                None => r matches Err(ConfigError::BadTimePoint(_)),
            },
    {
        match self {
            TimePoint::Every(d) => match parse_duration(d.as_str()) {
                Some(secs) => Ok(CTimePoint::Every(secs)),
                None => Err(ConfigError::BadTimePoint(d)),
            },
            TimePoint::At(a) => match parse_time_of_day(a.as_str()) {
                Some((hour, minute)) => Ok(CTimePoint::At { hour, minute }),
                None => Err(ConfigError::BadTimePoint(a)),
            },
        }
    }
}

/// An IMAP mailbox, as configured.
#[derive(Debug, Clone, PartialEq, Eq)]
pub struct EmailConf {
    pub imap: String,
    pub email: String,
    /// Log in through Google OAuth2 rather than with a password.
    pub google_oauth2: bool,
    pub sender: Option<String>,
    pub subjects: Option<Vec<String>>,
    pub exclude_subjects: Option<Vec<String>>,
    pub remove: bool,
    pub footer: Option<String>,
}

/// Where a task's entries come from, as configured.
#[derive(Debug, Clone, PartialEq, Eq)]
pub enum Source {
    Http { url: String },
    File { path: String },
    Twitter { handle: String },
    Email(EmailConf),
}

impl Source {
    /// Whether the source's entries can reply to one another.
    pub fn supports_replies(&self) -> (r: bool)
        ensures
            r == (self is Twitter),
    {
        match self {
            Source::Twitter { .. } => true,
            _ => false,
        }
    }

    pub fn duplicate(&self) -> (r: Source)
        ensures
            same_source(Some(r), Some(*self)),
    {
        match self {
            Source::Http { url } => Source::Http { url: url.clone() },
            Source::File { path } => Source::File { path: path.clone() },
            Source::Twitter { handle } => Source::Twitter { handle: handle.clone() },
            Source::Email(e) => Source::Email(e.duplicate()),
        }
    }
}

/// Whether two optional lists hold the same strings.
pub open spec fn same_strings(a: Option<Vec<String>>, b: Option<Vec<String>>) -> bool {
    match (a, b) {
        (Some(x), Some(y)) => x@ == y@,
        (None, None) => true,
        _ => false,
    }
}

/// Whether two sources are configured alike.
pub open spec fn same_source(a: Option<Source>, b: Option<Source>) -> bool {
    match (a, b) {
        (Some(Source::Email(x)), Some(Source::Email(y))) => x.imap == y.imap && x.email == y.email
            && x.google_oauth2 == y.google_oauth2 && x.sender == y.sender
            && same_strings(x.subjects, y.subjects) && same_strings(x.exclude_subjects, y.exclude_subjects)
            && x.remove == y.remove && x.footer == y.footer,
        (Some(Source::Email(_)), _) => false,
        (_, Some(Source::Email(_))) => false,
        _ => a == b,
    }
}

fn clone_opt_strings(v: &Option<Vec<String>>) -> (r: Option<Vec<String>>)
    ensures
        same_strings(r, *v),
{
    match v {
        Some(v) => {
            let mut r: Vec<String> = Vec::new();
            let mut i: usize = 0;
            while i < v.len()
                invariant
                    i <= v@.len(),
                    r@ == v@.take(i as int),
                decreases v.len() - i,
            {
                r.push(v[i].clone());
                assert(r@ =~= v@.take(i + 1));
                i = i + 1;
            }
            assert(v@.take(i as int) =~= v@);
            Some(r)
        },
        None => None,
    }
}

impl EmailConf {
    pub fn duplicate(&self) -> (r: EmailConf)
        ensures
            same_source(Some(Source::Email(r)), Some(Source::Email(*self))),
    {
        let subjects = clone_opt_strings(&self.subjects);
        let exclude_subjects = clone_opt_strings(&self.exclude_subjects);
        let r = EmailConf {
            imap: self.imap.clone(),
            email: self.email.clone(),
            google_oauth2: self.google_oauth2,
            sender: match &self.sender { Some(s) => Some(s.clone()), None => None },
            subjects,
            exclude_subjects,
            remove: self.remove,
            footer: match &self.footer { Some(s) => Some(s.clone()), None => None },
        };
        r
    }

    /// The email source named `name`, given what looking up its credential gave: a
    /// password, or Google OAuth2 credentials, as configured. A missing credential is an
    /// error.
    pub fn decode_with(
        self,
        name: String,
        password: ExternalDataResult<String>,
        oauth2: ExternalDataResult<crate::auth::GoogleAuth>,
    ) -> (r: Result<crate::email::Email, ConfigError>)
        ensures
            r matches Ok(e) ==> e.name == name && e.imap == self.imap && e.email == self.email
                && e.remove == self.remove && e.footer == self.footer
                && e.filters.sender == self.sender && e.filters.subjects == self.subjects
                && e.filters.exclude_subjects == self.exclude_subjects
                && (if self.google_oauth2 {
                    (oauth2 matches ExternalDataResult::Found(g) && e.auth == crate::email::Auth::GmailOAuth2(g))
                } else {
                    (password matches ExternalDataResult::Found(p) && e.auth == crate::email::Auth::Password(p))
                }),
            self.google_oauth2 ==> (r is Ok <==> oauth2 is Found),
            !self.google_oauth2 ==> (r is Ok <==> password is Found),
            self.google_oauth2 && oauth2 is Unavailable ==> r matches Err(ConfigError::GoogleOAuth2Missing),
            !self.google_oauth2 && password is Unavailable ==> r matches Err(ConfigError::EmailPasswordMissing),
    {
        let filters = crate::email::EmailFilters {
            sender: self.sender,
            subjects: self.subjects,
            exclude_subjects: self.exclude_subjects,
        };
        if self.google_oauth2 {
            match oauth2 {
                ExternalDataResult::Found(g) => Ok(crate::email::Email::with_google_oauth2(
                    name, self.imap, self.email, g, filters, self.remove, self.footer,
                )),
                ExternalDataResult::Unavailable => Err(ConfigError::GoogleOAuth2Missing),
                ExternalDataResult::Failed(e) => Err(ConfigError::External(e)),
            }
        } else {
            match password {
                ExternalDataResult::Found(p) => Ok(crate::email::Email::with_password(
                    name, self.imap, self.email, p, filters, self.remove, self.footer,
                )),
                ExternalDataResult::Unavailable => Err(ConfigError::EmailPasswordMissing),
                ExternalDataResult::Failed(e) => Err(ConfigError::External(e)),
            }
        }
    }

    /// The email source named `name`, with its credential looked up in `external`.
    pub fn decode_from_conf<D: ProvideExternalData>(self, name: String, external: &D) -> (r: Result<crate::email::Email, ConfigError>)
        ensures
            r matches Ok(e) ==> e.name == name && e.imap == self.imap && e.email == self.email
                && e.remove == self.remove && e.footer == self.footer
                && (e.auth is GmailOAuth2 <==> self.google_oauth2),
    {
        if self.google_oauth2 {
            let g = external.google_oauth2();
            self.decode_with(name, ExternalDataResult::Unavailable, g)
        } else {
            let p = external.email_password();
            self.decode_with(name, p, ExternalDataResult::Unavailable)
        }
    }
}

/// Where a task's messages go, as configured.
#[derive(Debug, Clone, Copy)]
pub enum Sink {
    Telegram(Telegram),
    Stdout,
}

/// A decoded sink.
#[derive(Debug)]
pub enum DecodedSink {
    Telegram(CTelegram),
    Stdout,
}

/// The sink a configured one decodes to, given what looking up the bot token gave.
pub open spec fn sink_of(s: Sink, token: ExternalDataResult<String>) -> Result<DecodedSink, ()> {
    match s {
        Sink::Stdout => Ok(DecodedSink::Stdout),
        Sink::Telegram(t) => match telegram_of(t, token) {
            Ok(x) => Ok(DecodedSink::Telegram(x)),
            Err(_) => Err(()),
        },
    }
}

/// Whether `d` is what `s` decodes to with some bot token.
pub open spec fn sink_decodes_to(s: Sink, d: DecodedSink) -> bool {
    match s {
        Sink::Stdout => d is Stdout,
        Sink::Telegram(t) => d matches DecodedSink::Telegram(x) && x.chat_id == t.chat_id
            && x.link_location == match t.link_location {
                Some(LinkLocation::Bottom) => CLinkLocation::Bottom,
                _ => CLinkLocation::PreferTitle,
            },
    }
}

impl Sink {
    /// The sink, given what looking up the bot token gave (used by a Telegram sink only).
    pub fn decode_with_token(self, token: ExternalDataResult<String>) -> (r: Result<DecodedSink, ConfigError>)
        ensures
            match sink_of(self, token) {
                Ok(d) => r == Ok::<DecodedSink, ConfigError>(d),
                Err(_) => r is Err,
            },
            self is Telegram && token is Unavailable ==> r matches Err(ConfigError::TelegramBotTokenMissing),
            self is Telegram ==> (token matches ExternalDataResult::Failed(e) ==> (r matches Err(ConfigError::External(e2)) && e2 == e)),
    {
        match self {
            Sink::Telegram(t) => match t.decode_with_token(token) {
                Ok(x) => Ok(DecodedSink::Telegram(x)),
                Err(e) => Err(e),
            },
            Sink::Stdout => Ok(DecodedSink::Stdout),
        }
    }

    /// The sink, with the bot token looked up in `external` when it needs one.
    pub fn decode_from_conf<D: ProvideExternalData>(self, external: &D) -> (r: Result<DecodedSink, ConfigError>)
        ensures
            self is Stdout ==> r matches Ok(DecodedSink::Stdout),
            r matches Ok(d) ==> sink_decodes_to(self, d),
    {
        match self {
            Sink::Telegram(_) => {
                let token = external.telegram_bot_token();
                self.decode_with_token(token)
            },
            Sink::Stdout => Ok(DecodedSink::Stdout),
        }
    }
}

impl Regex {
    pub fn duplicate(&self) -> (r: Regex)
        ensures
            r == *self,
    {
        let action = match &self.action {
            Action::Find { in_field } => Action::Find { in_field: *in_field },
            Action::Extract { from_field, passthrough_if_not_found } => Action::Extract {
                from_field: *from_field,
                passthrough_if_not_found: *passthrough_if_not_found,
            },
            Action::Replace { in_field, with } => Action::Replace { in_field: *in_field, with: with.clone() },
        };
        Regex { re: self.re.clone(), action }
    }
}

impl ActionConf {
    pub fn duplicate(&self) -> (r: ActionConf)
        ensures
            r == *self,
    {
        match self {
            ActionConf::Regex(r) => ActionConf::Regex(r.duplicate()),
            ActionConf::Extract(e) => ActionConf::Extract(Extract {
                from_field: e.from_field,
                re: e.re.clone(),
                passthrough_if_not_found: e.passthrough_if_not_found,
            }),
            ActionConf::Trim(t) => ActionConf::Trim(*t),
            ActionConf::Shorten(s) => ActionConf::Shorten(*s),
            ActionConf::Caps(f) => ActionConf::Caps(*f),
            ActionConf::Feed => ActionConf::Feed,
            ActionConf::UseRawContents(f) => ActionConf::UseRawContents(*f),
        }
    }
}

pub open spec fn actions_view(a: Option<Vec<ActionConf>>) -> Option<Seq<ActionConf>> {
    match a {
        Some(v) => Some(v@),
        None => None,
    }
}

fn duplicate_actions(v: &Vec<ActionConf>) -> (r: Vec<ActionConf>)
    ensures
        r@ == v@,
{
    let mut r: Vec<ActionConf> = Vec::new();
    let mut i: usize = 0;
    while i < v.len()
        invariant
            i <= v@.len(),
            r@ == v@.take(i as int),
        decreases v.len() - i,
    {
        r.push(v[i].duplicate());
        assert(r@ =~= v@.take(i + 1));
        i = i + 1;
    }
    assert(v@.take(i as int) =~= v@);
    r
}

/// The tag of a task: its own if set, else its name within the job.
pub open spec fn tag_of(tag: Option<Seq<char>>, task_name: Option<Seq<char>>) -> Option<Seq<char>> {
    match tag {
        Some(t) => Some(t),
        None => task_name,
    }
}

pub fn resolve_tag(tag: Option<String>, task_name: Option<&str>) -> (r: Option<String>)
    ensures
        opt_view(r) == tag_of(opt_view(tag), match task_name { Some(n) => Some(n@), None => None }),
{
    match tag {
        Some(t) => Some(t),
        None => match task_name {
            Some(n) => Some(String::from_str(n)),
            None => None,
        },
    }
}

/// Takes the read-filter that looking one up gave, if it is of the configured kind.
pub fn read_filter_from(expected: ReadFilterKind, got: ExternalDataResult<ReadFilter>) -> (r: Result<Option<ReadFilter>, ConfigError>)
    ensures
        match got {
            ExternalDataResult::Found(f) => if rf_kind(f@) == expected {
                r matches Ok(Some(x)) && x@ == f@
            } else {
                r matches Err(ConfigError::External(crate::config::ExternalDataError::ReadFilterIncompatible { .. }))
            },
            ExternalDataResult::Unavailable => r matches Ok(None),
            ExternalDataResult::Failed(e) => r matches Err(ConfigError::External(e2)) && e2 == e,
        },
{
    match got {
        ExternalDataResult::Found(f) => {
            let found = f.kind();
            if found == expected {
                Ok(Some(f))
            } else {
                Err(ConfigError::External(crate::config::ExternalDataError::ReadFilterIncompatible { expected, found }))
            }
        },
        ExternalDataResult::Unavailable => Ok(None),
        ExternalDataResult::Failed(e) => Err(ConfigError::External(e)),
    }
}

/// Decodes every action, in order.
pub fn decode_actions<S>(acts: Vec<ActionConf>) -> (r: Result<Vec<CAction<S>>, ConfigError>)
    ensures
        r is Ok <==> forall|i: int| 0 <= i < acts@.len() ==> action_decodes(#[trigger] acts@[i]),
        r matches Ok(v) ==> v@.len() == acts@.len()
            && forall|i: int| 0 <= i < acts@.len() ==> decodes_to(#[trigger] acts@[i], v@[i]),
        r is Err ==> r matches Err(ConfigError::Regex(_)),
{
    let mut r: Vec<CAction<S>> = Vec::new();
    let mut i: usize = 0;
    while i < acts.len()
        invariant
            i <= acts@.len(),
            r@.len() == i,
            forall|j: int| 0 <= j < i ==> action_decodes(#[trigger] acts@[j]),
            forall|j: int| 0 <= j < i ==> decodes_to(#[trigger] acts@[j], r@[j]),
        decreases acts.len() - i,
    {
        match acts[i].duplicate().decode_from_conf() {
            Ok(a) => r.push(a),
            Err(e) => {
                return Err(e);
            },
        }
        i = i + 1;
    }
    Ok(r)
}

/// A task as configured. The job supplies the fields it leaves out.
#[derive(Debug)]
pub struct Task {
    pub read_filter_kind: Option<ReadFilterKind>,
    pub tag: Option<String>,
    pub source: Option<Source>,
    pub actions: Option<Vec<ActionConf>>,
    pub entry_to_msg_map_enabled: Option<bool>,
    pub sink: Option<Sink>,
}

/// Whether the entry-to-message map is kept for a task: as configured, else when its
/// source supports replies.
pub open spec fn map_enabled(t: Task) -> bool {
    match t.entry_to_msg_map_enabled {
        Some(b) => b,
        None => t.source matches Some(s) && s is Twitter,
    }
}

/// Whether every configured action of `t` decodes.
pub open spec fn actions_decode(t: Task) -> bool {
    t.actions matches Some(a) ==> forall|i: int| 0 <= i < a@.len() ==> action_decodes(#[trigger] a@[i])
}

/// Whether `v` is the configured actions `cs` decoded in order, followed by the decoded
/// sink when one is configured.
pub open spec fn actions_decoded(cs: Seq<ActionConf>, sink: Option<Sink>, v: Seq<CAction<DecodedSink>>) -> bool {
    &&& v.len() == cs.len() + if sink is Some { 1int } else { 0int }
    &&& forall|i: int| 0 <= i < cs.len() ==> decodes_to(#[trigger] cs[i], v[i])
    &&& (sink matches Some(s) ==> (v[cs.len() as int] matches CAction::Sink(d) && sink_decodes_to(s, d)))
}

/// Whether `t` is what the configured task `c`, named `name` if it has a name, decodes
/// to, whatever the lookups of external data gave.
pub open spec fn decoded_like(c: Task, name: Option<Seq<char>>, t: CTask<Source, DecodedSink>) -> bool {
    &&& opt_view(t.tag) == tag_of(opt_view(c.tag), name)
    &&& same_source(t.source, c.source)
    &&& (t.read_filter matches Some(f) ==> c.read_filter_kind == Some(rf_kind(f@)))
    &&& (c.read_filter_kind is None ==> t.read_filter is None)
    &&& (t.actions is Some <==> c.actions is Some)
    &&& (t.actions matches Some(v) ==> actions_decoded(c.actions->0@, c.sink, v@))
    &&& (t.entry_to_msg_map is Some ==> map_enabled(c))
}

/// Whether `c` decodes without asking for any external data: no read-filter, no sink
/// that needs a token, no entry-to-message map.
pub open spec fn needs_no_lookup(c: Task) -> bool {
    &&& c.read_filter_kind is None
    &&& (c.actions is None || c.sink is None || c.sink matches Some(Sink::Stdout))
    &&& !map_enabled(c)
}

/// Whether the outcomes of the lookups let `c` decode.
pub open spec fn lookups_succeed(
    c: Task,
    rf_got: ExternalDataResult<ReadFilter>,
    token: ExternalDataResult<String>,
    map_got: ExternalDataResult<CEntryToMsgMap>,
) -> bool {
    &&& (c.read_filter_kind matches Some(k) ==> match rf_got {
        ExternalDataResult::Found(f) => rf_kind(f@) == k,
        ExternalDataResult::Unavailable => true,
        ExternalDataResult::Failed(_) => false,
    })
    &&& (c.actions is Some ==> (c.sink matches Some(s) ==> sink_of(s, token) is Ok))
    &&& (map_enabled(c) ==> !(map_got is Failed))
}

/// Takes the entry-to-message map that looking one up gave.
pub fn entry_to_msg_map_from(got: ExternalDataResult<CEntryToMsgMap>) -> (r: Result<Option<CEntryToMsgMap>, ConfigError>)
    ensures
        match got {
            ExternalDataResult::Found(m) => r matches Ok(Some(x)) && x.spec_pairs() == m.spec_pairs(),
            ExternalDataResult::Unavailable => r matches Ok(None),
            ExternalDataResult::Failed(e) => r matches Err(ConfigError::External(e2)) && e2 == e,
        },
{
    match got {
        ExternalDataResult::Found(m) => Ok(Some(m)),
        ExternalDataResult::Unavailable => Ok(None),
        ExternalDataResult::Failed(e) => Err(ConfigError::External(e)),
    }
}

impl Task {
    /// Decodes the task named `task_name` (if it has a name), given what looking up its
    /// read-filter, its sink's bot token and its entry-to-message map gave; a lookup
    /// the task does not need is ignored. The actions are decoded first, then the
    /// read-filter, the sink and the map are taken in that order.
    pub fn decode_with(
        self,
        task_name: Option<&str>,
        rf_got: ExternalDataResult<ReadFilter>,
        token: ExternalDataResult<String>,
        map_got: ExternalDataResult<CEntryToMsgMap>,
    ) -> (r: Result<CTask<Source, DecodedSink>, ConfigError>)
        ensures
            r matches Err(ConfigError::Regex(_)) <==> !actions_decode(self),
            r is Ok <==> actions_decode(self) && lookups_succeed(self, rf_got, token, map_got),
            actions_decode(self) && self.read_filter_kind is Some ==> (rf_got matches ExternalDataResult::Failed(e)
                ==> (r matches Err(ConfigError::External(e2)) && e2 == e)),
            r matches Ok(t) ==> {
                &&& decoded_like(self, match task_name { Some(n) => Some(n@), None => None }, t)
                &&& t.source == self.source
                &&& (match (self.read_filter_kind, rf_got) {
                    (Some(_), ExternalDataResult::Found(f)) => t.read_filter matches Some(x) && x@ == f@,
                    _ => t.read_filter is None,
                })
                &&& (match (self.actions, self.sink) {
                    (Some(a), Some(s)) => t.actions matches Some(v) && sink_of(s, token) == Ok::<DecodedSink, ()>(v@[a@.len() as int]->Sink_0),
                    _ => true,
                })
                &&& (if map_enabled(self) {
                    match map_got {
                        ExternalDataResult::Found(m) => t.entry_to_msg_map matches Some(x) && x.spec_pairs() == m.spec_pairs(),
                        _ => t.entry_to_msg_map is None,
                    }
                } else {
                    t.entry_to_msg_map is None
                })
            },
    {
        let enabled = match self.entry_to_msg_map_enabled {
            Some(b) => b,
            None => match &self.source {
                Some(s) => s.supports_replies(),
                None => false,
            },
        };
        let decoded = match self.actions {
            Some(acts) => match decode_actions(acts) {
                Ok(v) => Some(v),
                Err(e) => {
                    return Err(e);
                },
            },
            None => None,
        };
        let rf = match self.read_filter_kind {
            Some(expected) => match read_filter_from(expected, rf_got) {
                Ok(rf) => rf,
                Err(e) => {
                    return Err(e);
                },
            },
            None => None,
        };
        let actions = match decoded {
            Some(mut v) => {
                match self.sink {
                    Some(sink) => match sink.decode_with_token(token) {
                        Ok(d) => v.push(CAction::Sink(d)),
                        Err(e) => {
                            return Err(e);
                        },
                    },
                    None => {},
                }
                Some(v)
            },
            None => None,
        };
        let entry_to_msg_map = if enabled {
            match entry_to_msg_map_from(map_got) {
                Ok(m) => m,
                Err(e) => {
                    return Err(e);
                },
            }
        } else {
            None
        };
        let tag = resolve_tag(self.tag, task_name);
        Ok(CTask { tag, source: self.source, actions, entry_to_msg_map, read_filter: rf })
    }

    /// Decodes the task named `task_name` (if it has a name) of job `job`, looking up in
    /// `external` only what it needs.
    pub fn decode_from_conf<D: ProvideExternalData>(self, job: &str, task_name: Option<&str>, external: &D) -> (r: Result<CTask<Source, DecodedSink>, ConfigError>)
        ensures
            r matches Err(ConfigError::Regex(_)) <==> !actions_decode(self),
            actions_decode(self) && needs_no_lookup(self) ==> r is Ok,
            r is Ok ==> actions_decode(self),
            r matches Ok(t) ==> decoded_like(self, match task_name { Some(n) => Some(n@), None => None }, t)
                && t.source == self.source,
    {
        let enabled = match self.entry_to_msg_map_enabled {
            Some(b) => b,
            None => match &self.source {
                Some(s) => s.supports_replies(),
                None => false,
            },
        };
        let rf_got = match self.read_filter_kind {
            Some(k) => external.read_filter(job, task_name, k),
            None => ExternalDataResult::Unavailable,
        };
        let token = match (&self.actions, &self.sink) {
            (Some(_), Some(Sink::Telegram(_))) => external.telegram_bot_token(),
            _ => ExternalDataResult::Unavailable,
        };
        let map_got = if enabled {
            external.entry_to_msg_map(job, task_name)
        } else {
            ExternalDataResult::Unavailable
        };
        self.decode_with(task_name, rf_got, token, map_got)
    }
}

/// A job as configured: either a list of named tasks, whose missing fields are taken
/// from the job, or, without tasks, a single task made of the job's own fields.
#[derive(Debug)]
pub struct Job {
    pub read_filter_kind: Option<ReadFilterKind>,
    pub tag: Option<String>,
    pub source: Option<Source>,
    pub actions: Option<Vec<ActionConf>>,
    pub entry_to_msg_map_enabled: Option<bool>,
    pub sink: Option<Sink>,
    pub tasks: Option<Vec<(String, Task)>>,
    pub refresh: Option<TimePoint>,
    pub disabled: Option<bool>,
    pub templates: Option<Vec<String>>,
}

/// `t`, with `job` supplying each field that `t` leaves out.
pub open spec fn with_defaults(t: Task, job: Job) -> Task {
    Task {
        read_filter_kind: if t.read_filter_kind is Some { t.read_filter_kind } else { job.read_filter_kind },
        tag: if t.tag is Some { t.tag } else { job.tag },
        source: if t.source is Some { t.source } else { job.source },
        actions: if t.actions is Some { t.actions } else { job.actions },
        entry_to_msg_map_enabled: if t.entry_to_msg_map_enabled is Some { t.entry_to_msg_map_enabled } else { job.entry_to_msg_map_enabled },
        sink: if t.sink is Some { t.sink } else { job.sink },
    }
}

/// A decoded job: its tasks, when it runs again, and the names of its tasks if it had
/// named ones, in the tasks' order.
#[derive(Debug)]
pub struct JobWithTaskNames {
    pub tasks: Vec<CTask<Source, DecodedSink>>,
    pub refresh_time: Option<CTimePoint>,
    pub task_names: Option<Vec<String>>,
}

impl Task {
    pub fn with_defaults_from(self, job: &Job) -> (r: Task)
        ensures
            r.read_filter_kind == with_defaults(self, *job).read_filter_kind,
            r.tag == with_defaults(self, *job).tag,
            same_source(r.source, with_defaults(self, *job).source),
            actions_view(r.actions) == actions_view(with_defaults(self, *job).actions),
            r.entry_to_msg_map_enabled == with_defaults(self, *job).entry_to_msg_map_enabled,
            r.sink == with_defaults(self, *job).sink,
    {
        let read_filter_kind = match self.read_filter_kind {
            Some(k) => Some(k),
            None => job.read_filter_kind,
        };
        let tag = match self.tag {
            Some(t) => Some(t),
            None => match &job.tag {
                Some(t) => Some(t.clone()),
                None => None,
            },
        };
        let source = match self.source {
            Some(s) => Some(s),
            None => match &job.source {
                Some(s) => Some(s.duplicate()),
                None => None,
            },
        };
        let actions = match self.actions {
            Some(a) => Some(a),
            None => match &job.actions {
                Some(a) => Some(duplicate_actions(a)),
                None => None,
            },
        };
        let entry_to_msg_map_enabled = match self.entry_to_msg_map_enabled {
            Some(b) => Some(b),
            None => job.entry_to_msg_map_enabled,
        };
        let sink = match self.sink {
            Some(s) => Some(s),
            None => job.sink,
        };
        Task { read_filter_kind, tag, source, actions, entry_to_msg_map_enabled, sink }
    }
}

/// The single task a job without tasks stands for: the job's own fields.
pub open spec fn job_task(j: Job) -> Task {
    Task {
        read_filter_kind: j.read_filter_kind,
        tag: j.tag,
        source: j.source,
        actions: j.actions,
        entry_to_msg_map_enabled: j.entry_to_msg_map_enabled,
        sink: j.sink,
    }
}

/// Whether a job's refresh time, if it has one, is valid.
pub open spec fn refresh_decodes(j: Job) -> bool {
    j.refresh matches Some(t) ==> time_point_of(t) is Some
}

/// Whether a job lists tasks of its own.
pub open spec fn has_tasks(j: Job) -> bool {
    j.tasks matches Some(ts) && ts@.len() > 0
}

impl Job {
    /// Decodes the job named `name`. A job without tasks is one task made of the job's
    /// own fields, without a name; otherwise each task, with the job supplying the
    /// fields the task leaves out, is decoded under its name, which becomes its tag
    /// unless it has one. The job fails when its refresh time or any task fails.
    pub fn decode_from_conf<D: ProvideExternalData>(self, name: &str, external: &D) -> (r: Result<JobWithTaskNames, ConfigError>)
        ensures
            !refresh_decodes(self) ==> r matches Err(ConfigError::BadTimePoint(_)),
            !has_tasks(self) ==> (refresh_decodes(self) && actions_decode(job_task(self)) && needs_no_lookup(job_task(self)) ==> r is Ok),
            !has_tasks(self) && !actions_decode(job_task(self)) ==> r is Err,
            has_tasks(self) ==> (refresh_decodes(self) && (forall|i: int| 0 <= i < self.tasks->0@.len()
                ==> actions_decode(with_defaults(#[trigger] self.tasks->0@[i].1, self))
                && needs_no_lookup(with_defaults(self.tasks->0@[i].1, self))) ==> r is Ok),
            has_tasks(self) ==> ((exists|i: int| 0 <= i < self.tasks->0@.len()
                && !actions_decode(with_defaults(#[trigger] self.tasks->0@[i].1, self))) ==> r is Err),
            r matches Ok(j) ==> {
                &&& (match self.refresh {
                    Some(t) => j.refresh_time == time_point_of(t),
                    None => j.refresh_time is None,
                })
                &&& (if has_tasks(self) {
                    let ts = self.tasks->0@;
                    &&& j.tasks@.len() == ts.len()
                    &&& j.task_names matches Some(names) && names@.len() == ts.len()
                    &&& forall|i: int| 0 <= i < ts.len() ==> (#[trigger] j.task_names->0@[i])@ == ts[i].0@
                    &&& forall|i: int| 0 <= i < ts.len() ==> decoded_like(with_defaults(ts[i].1, self), Some(ts[i].0@), #[trigger] j.tasks@[i])
                } else {
                    &&& j.tasks@.len() == 1
                    &&& j.task_names is None
                    &&& decoded_like(job_task(self), None, j.tasks@[0])
                })
            },
    {
        let refresh_time = match &self.refresh {
            Some(t) => {
                let d = t.duplicate();
                assert(d == *t);
                match d.decode_from_conf() {
                    Ok(x) => Some(x),
                    Err(e) => {
                        return Err(e);
                    },
                }
            },
            None => None,
        };
        let ghost job = self;
        assert(refresh_decodes(job));
        let Job { read_filter_kind, tag, source, actions, entry_to_msg_map_enabled, sink, tasks: named, .. } = self;
        let named = match named {
            Some(ts) => {
                if ts.len() == 0 {
                    None
                } else {
                    Some(ts)
                }
            },
            None => None,
        };
        let named = match named {
            Some(ts) => ts,
            None => {
                let task = Task { read_filter_kind, tag, source, actions, entry_to_msg_map_enabled, sink };
                assert(task == job_task(job));
                let decoded = match task.decode_from_conf(name, None, external) {
                    Ok(t) => t,
                    Err(e) => {
                        assert(!(actions_decode(job_task(job)) && needs_no_lookup(job_task(job))));
                        return Err(e);
                    },
                };
                let mut tasks = Vec::new();
                tasks.push(decoded);
                return Ok(JobWithTaskNames { tasks, refresh_time, task_names: None });
            },
        };
        let defaults = Job {
            read_filter_kind,
            tag,
            source,
            actions,
            entry_to_msg_map_enabled,
            sink,
            tasks: None,
            refresh: None,
            disabled: None,
            templates: None,
        };
        let ghost ts = named@;
        assert(job.tasks->0@ == ts && has_tasks(job));
        let n = named.len();
        let mut named = named;
        let mut rev: Vec<(String, Task)> = Vec::new();
        while named.len() > 0
            invariant
                named@ == ts.take(named@.len() as int),
                named@.len() + rev@.len() == n,
                n == ts.len(),
                forall|j: int| 0 <= j < rev@.len() ==> #[trigger] rev@[j] == ts[n - 1 - j],
            decreases named.len(),
        {
            let ghost k = named@.len();
            let x = named.pop().unwrap();
            assert(x == ts[k - 1]);
            assert(named@ =~= ts.take(k - 1));
            rev.push(x);
        }
        let mut tasks: Vec<CTask<Source, DecodedSink>> = Vec::new();
        let mut names: Vec<String> = Vec::new();
        let mut i: usize = 0;
        while rev.len() > 0
            invariant
                i + rev@.len() == n,
                n == ts.len(),
                ts == job.tasks->0@,
                refresh_decodes(job),
                has_tasks(job),
                job == self,
                forall|j: int| 0 <= j < rev@.len() ==> #[trigger] rev@[j] == ts[n - 1 - j],
                tasks@.len() == i && names@.len() == i,
                forall|k: int| 0 <= k < i ==> (#[trigger] names@[k])@ == ts[k].0@,
                forall|k: int| 0 <= k < i ==> decoded_like(with_defaults(ts[k].1, job), Some(ts[k].0@), #[trigger] tasks@[k]),
                forall|k: int| 0 <= k < i ==> actions_decode(with_defaults(#[trigger] ts[k].1, job)),
                defaults.tag == job.tag && defaults.source == job.source && defaults.sink == job.sink
                    && defaults.read_filter_kind == job.read_filter_kind
                    && defaults.actions == job.actions
                    && defaults.entry_to_msg_map_enabled == job.entry_to_msg_map_enabled,
            decreases rev.len(),
        {
            let (task_name, t) = rev.pop().unwrap();
            assert((task_name, t) == ts[i as int]);
            let ghost wd = with_defaults(ts[i as int].1, job);
            assert(with_defaults(t, defaults) == wd);
            let t = t.with_defaults_from(&defaults);
            assert(actions_decode(t) == actions_decode(wd));
            assert(map_enabled(t) == map_enabled(wd));
            assert(needs_no_lookup(t) == needs_no_lookup(wd));
            let decoded = match t.decode_from_conf(name, Some(task_name.as_str()), external) {
                Ok(x) => x,
                Err(e) => {
                    assert(!(actions_decode(wd) && needs_no_lookup(wd)));
                    return Err(e);
                },
            };
            assert(decoded_like(wd, Some(ts[i as int].0@), decoded));
            tasks.push(decoded);
            names.push(task_name);
            i = i + 1;
        }
        Ok(JobWithTaskNames { tasks, refresh_time, task_names: Some(names) })
    }
}

} // verus!
