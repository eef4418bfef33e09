//! The email source: which unseen messages to ask an IMAP server for, what to tell it
//! once they are fetched, and how a fetched message becomes a [`Message`].

use vstd::prelude::*;
use crate::auth::GoogleAuth;
use crate::entry::{Message, opt_view, strings_view};
use crate::text::{before_first, cut_at, decimal, push_decimal};

verus! {

#[verifier::external_type_specification]
#[verifier::external_body]
pub struct ExMailParseError(::mailparse::MailParseError);

/// Which unseen messages an email source asks for.
#[derive(Debug)]
pub struct EmailFilters {
    pub sender: Option<String>,
    pub subjects: Option<Vec<String>>,
    pub exclude_subjects: Option<Vec<String>>,
}

/// How an email source logs in.
#[derive(Debug)]
pub enum Auth {
    /// Google OAuth2 with full access to Gmail.
    GmailOAuth2(GoogleAuth),
    /// A plain password.
    Password(String),
}

/// An IMAP mailbox source.
#[derive(Debug)]
pub struct Email {
    pub name: String,
    pub imap: String,
    pub email: String,
    pub auth: Auth,
    pub filters: EmailFilters,
    /// Delete the messages from the server once they are fetched.
    pub remove: bool,
    /// Everything from the first occurrence of this text on is cut from message bodies.
    pub footer: Option<String>,
}

/// ` KEYWORD "value"`
pub open spec fn clause(keyword: Seq<char>, v: Seq<char>) -> Seq<char> {
    " "@ + keyword + " \""@ + v + "\""@
}

/// One clause per value, in order.
pub open spec fn clauses(keyword: Seq<char>, vs: Seq<Seq<char>>) -> Seq<char>
    decreases vs.len(),
{
    if vs.len() == 0 {
        Seq::empty()
    } else {
        clauses(keyword, vs.drop_last()) + clause(keyword, vs.last())
    }
}

pub open spec fn opt_strings(v: Option<Vec<String>>) -> Seq<Seq<char>> {
    match v {
        Some(v) => strings_view(v@),
        None => Seq::empty(),
    }
}

/// The IMAP search for the unseen messages that pass the filters.
pub open spec fn search_query(f: EmailFilters) -> Seq<char> {
    "UNSEEN"@ + match f.sender {
        Some(s) => clause("FROM"@, s@),
        None => Seq::empty(),
    } + clauses("SUBJECT"@, opt_strings(f.subjects)) + clauses("NOT SUBJECT"@, opt_strings(f.exclude_subjects))
}

fn push_clause(q: &mut String, keyword: &str, v: &str)
    ensures
        final(q)@ == old(q)@ + clause(keyword@, v@),
{
    q.append(" ");
    q.append(keyword);
    q.append(" \"");
    q.append(v);
    q.append("\"");
    assert(final(q)@ =~= old(q)@ + clause(keyword@, v@));
}

fn push_clauses(q: &mut String, keyword: &str, vs: &Vec<String>)
    ensures
        final(q)@ == old(q)@ + clauses(keyword@, strings_view(vs@)),
{
    let ghost start = q@;
    let ghost all = strings_view(vs@);
    let mut i: usize = 0;
    assert(all.take(0) =~= Seq::<Seq<char>>::empty());
    assert(start + Seq::<char>::empty() =~= start);
    while i < vs.len()
        invariant
            i <= vs@.len(),
            all == strings_view(vs@),
            q@ == start + clauses(keyword@, all.take(i as int)),
        decreases vs.len() - i,
    {
        push_clause(q, keyword, vs[i].as_str());
        assert(all.take(i + 1).drop_last() =~= all.take(i as int));
        assert(all.take(i + 1).last() == vs@[i as int]@);
        assert(q@ =~= start + clauses(keyword@, all.take(i + 1)));
        i = i + 1;
    }
    assert(all.take(i as int) =~= all);
}

impl EmailFilters {
    /// The IMAP search string: `UNSEEN`, then `FROM "<sender>"`, one `SUBJECT "<s>"` per
    /// subject and one `NOT SUBJECT "<s>"` per excluded subject, separated by spaces.
    pub fn search_string(&self) -> (r: String)
        ensures
            r@ == search_query(*self),
    {
        let mut q = String::from_str("UNSEEN");
        if let Some(sender) = &self.sender {
            push_clause(&mut q, "FROM", sender.as_str());
        }
        let ghost after_sender = q@;
        match &self.subjects {
            Some(s) => push_clauses(&mut q, "SUBJECT", s),
            None => {
                assert(clauses("SUBJECT"@, Seq::<Seq<char>>::empty()) =~= Seq::<char>::empty());
                assert(q@ =~= after_sender + Seq::<char>::empty());
            },
        }
        let ghost after_subjects = q@;
        match &self.exclude_subjects {
            Some(s) => push_clauses(&mut q, "NOT SUBJECT", s),
            None => {
                assert(clauses("NOT SUBJECT"@, Seq::<Seq<char>>::empty()) =~= Seq::<char>::empty());
                assert(q@ =~= after_subjects + Seq::<char>::empty());
            },
        }
        proof {
            let f = *self;
            let sp = match f.sender {
                Some(s) => clause("FROM"@, s@),
                None => Seq::<char>::empty(),
            };
            assert(q@ =~= "UNSEEN"@ + sp + clauses("SUBJECT"@, opt_strings(f.subjects)) + clauses("NOT SUBJECT"@, opt_strings(f.exclude_subjects)));
        }
        q
    }
}

/// The message uids joined by commas, each in decimal.
pub open spec fn uid_list(uids: Seq<u32>) -> Seq<char>
    decreases uids.len(),
{
    if uids.len() == 0 {
        Seq::empty()
    } else if uids.len() == 1 {
        decimal(uids[0] as nat)
    } else {
        uid_list(uids.drop_last()) + seq![','] + decimal(uids.last() as nat)
    }
}

/// The uids as an IMAP sequence set: decimal numbers separated by commas.
pub fn join_uids(uids: &Vec<u32>) -> (r: String)
    ensures
        r@ == uid_list(uids@),
{
    let mut s = String::new();
    let mut i: usize = 0;
    while i < uids.len()
        invariant
            i <= uids@.len(),
            s@ == uid_list(uids@.take(i as int)),
        decreases uids.len() - i,
    {
        let ghost before = s@;
        assert(uids@.take(i + 1).drop_last() =~= uids@.take(i as int));
        if i > 0 {
            crate::text::push_char(&mut s, ',');
        }
        push_decimal(&mut s, uids[i]);
        proof {
            let t = uids@.take(i + 1);
            assert(t.last() == uids@[i as int]);
            if i == 0 {
                assert(t.len() == 1 && t[0] == uids@[0]);
                assert(s@ =~= decimal(uids@[0] as nat));
            } else {
                assert(s@ =~= before + seq![','] + decimal(uids@[i as int] as nat));
            }
        }
        i = i + 1;
    }
    assert(uids@.take(i as int) =~= uids@);
    s
}

/// A command to send to the IMAP server once the search has returned.
#[derive(Debug, PartialEq, Eq)]
pub enum ImapCommand {
    /// `UID FETCH <uids> BODY[]`
    Fetch(String),
    /// `UID STORE <uids> +FLAGS.SILENT (\Deleted)`
    StoreDeleted(String),
    /// `UID EXPUNGE <uids>`
    Expunge(String),
    /// `LOGOUT`
    Logout,
}

pub enum ImapCommandView {
    Fetch(Seq<char>),
    StoreDeleted(Seq<char>),
    Expunge(Seq<char>),
    Logout,
}

impl View for ImapCommand {
    type V = ImapCommandView;

    open spec fn view(&self) -> ImapCommandView {
        match self {
            ImapCommand::Fetch(s) => ImapCommandView::Fetch(s@),
            ImapCommand::StoreDeleted(s) => ImapCommandView::StoreDeleted(s@),
            ImapCommand::Expunge(s) => ImapCommandView::Expunge(s@),
            ImapCommand::Logout => ImapCommandView::Logout,
        }
    }
}

/// What to send after a search found `uids`: nothing if it found none; else fetch
/// them, delete and expunge them if `remove` is set, and log out.
pub open spec fn commands_after(uids: Seq<u32>, remove: bool) -> Seq<ImapCommandView> {
    let l = uid_list(uids);
    if uids.len() == 0 {
        Seq::empty()
    } else if remove {
        seq![ImapCommandView::Fetch(l), ImapCommandView::StoreDeleted(l), ImapCommandView::Expunge(l), ImapCommandView::Logout]
    } else {
        seq![ImapCommandView::Fetch(l), ImapCommandView::Logout]
    }
}

impl Email {
    /// A source that logs in with a password.
    pub fn with_password(
        name: String,
        imap: String,
        email: String,
        password: String,
        filters: EmailFilters,
        remove: bool,
        footer: Option<String>,
    ) -> (r: Email)
        ensures
            r.name == name && r.imap == imap && r.email == email && r.filters == filters,
            r.auth == Auth::Password(password),
            r.remove == remove && r.footer == footer,
    {
        Email { name, imap, email, auth: Auth::Password(password), filters, remove, footer }
    }

    /// A source that logs in through Google OAuth2.
    pub fn with_google_oauth2(
        name: String,
        imap: String,
        email: String,
        auth: GoogleAuth,
        filters: EmailFilters,
        remove: bool,
        footer: Option<String>,
    ) -> (r: Email)
        ensures
            r.name == name && r.imap == imap && r.email == email && r.filters == filters,
            r.auth == Auth::GmailOAuth2(auth),
            r.remove == remove && r.footer == footer,
    {
        Email { name, imap, email, auth: Auth::GmailOAuth2(auth), filters, remove, footer }
    }

    /// The commands to send once the search returned `uids`.
    pub fn commands_after_search(&self, uids: &Vec<u32>) -> (r: Vec<ImapCommand>)
        ensures
            Seq::new(r@.len(), |i: int| r@[i]@) == commands_after(uids@, self.remove),
    {
        let mut r: Vec<ImapCommand> = Vec::new();
        if uids.len() == 0 {
            assert(Seq::new(r@.len(), |i: int| r@[i]@) =~= commands_after(uids@, self.remove));
            return r;
        }
        let l = join_uids(uids);
        r.push(ImapCommand::Fetch(l.clone()));
        if self.remove {
            r.push(ImapCommand::StoreDeleted(l.clone()));
            r.push(ImapCommand::Expunge(l));
        }
        r.push(ImapCommand::Logout);
        assert(Seq::new(r@.len(), |i: int| r@[i]@) =~= commands_after(uids@, self.remove));
        r
    }
}

/// One MIME part of a fetched message.
#[derive(Debug)]
pub struct MailPart {
    pub mimetype: String,
    /// The decoded body, or `None` when it could not be decoded.
    pub body: Option<String>,
}

/// A fetched message: its headers in order, its own decoded body, and its subparts.
#[derive(Debug)]
pub struct ParsedMail {
    pub headers: Vec<(String, String)>,
    pub mimetype: String,
    pub body: Option<String>,
    pub subparts: Vec<MailPart>,
}

pub struct MailPartView {
    pub mimetype: Seq<char>,
    pub body: Option<Seq<char>>,
}

pub struct ParsedMailView {
    pub headers: Seq<(Seq<char>, Seq<char>)>,
    pub mimetype: Seq<char>,
    pub body: Option<Seq<char>>,
    pub subparts: Seq<MailPartView>,
}

impl View for ParsedMail {
    type V = ParsedMailView;

    open spec fn view(&self) -> ParsedMailView {
        ParsedMailView {
            headers: Seq::new(self.headers@.len(), |i: int| (self.headers@[i].0@, self.headers@[i].1@)),
            mimetype: self.mimetype@,
            body: opt_view(self.body),
            subparts: Seq::new(self.subparts@.len(), |i: int| MailPartView {
                mimetype: self.subparts@[i].mimetype@,
                body: opt_view(self.subparts@[i].body),
            }),
        }
    }
}

/// The name of what MIME parsing makes of a raw message, or `None` when it cannot be
/// parsed.
pub uninterp spec fn parsed_mail_of(raw: Seq<u8>) -> Option<ParsedMailView>;

/// Relies on mailparse::parse_mail (and, on its result, MailHeader::get_key and
/// get_value, ParsedMail::get_body and the parsed content types): the headers, body and
/// direct subparts of a raw message.
#[verifier::external_body]
fn parse_mail_parts(raw: &[u8]) -> (r: Result<ParsedMail, ::mailparse::MailParseError>)
    ensures
        r is Ok <==> parsed_mail_of(raw@) is Some,
        r matches Ok(m) ==> Some(m@) == parsed_mail_of(raw@),
{
    let m = ::mailparse::parse_mail(raw)?;
    Ok(ParsedMail {
        headers: m.headers.iter().map(|h| (h.get_key(), h.get_value())).collect(),
        mimetype: m.ctype.mimetype.clone(),
        body: m.get_body().ok(),
        subparts: m.subparts.iter().map(|p| MailPart { mimetype: p.ctype.mimetype.clone(), body: p.get_body().ok() }).collect(),
    })
}

/// The name of what HTML sanitising makes of a text.
pub uninterp spec fn sanitized(s: Seq<char>) -> Seq<char>;

/// Relies on ammonia::clean: the text with every HTML construct outside the default
/// whitelist removed; the result depends on the text alone.
#[verifier::external_body]
fn sanitize_html(s: &str) -> (r: String)
    ensures
        r@ == sanitized(s@),
{
    ::ammonia::clean(s)
}

/// The value of the first header named exactly `key`.
pub open spec fn first_header(hs: Seq<(Seq<char>, Seq<char>)>, key: Seq<char>) -> Option<Seq<char>>
    decreases hs.len(),
{
    if hs.len() == 0 {
        None
    } else if hs[0].0 == key {
        Some(hs[0].1)
    } else {
        first_header(hs.drop_first(), key)
    }
}

/// The index of the first part with mimetype `text/plain`, or the number of parts.
pub open spec fn first_plain(ps: Seq<MailPartView>) -> int
    decreases ps.len(),
{
    if ps.len() == 0 {
        0
    } else if ps[0].mimetype == "text/plain"@ {
        0
    } else {
        1 + first_plain(ps.drop_first())
    }
}

/// The body a message is read from: its own when it has no subparts, else that of the
/// first `text/plain` subpart, else that of the first subpart.
pub open spec fn chosen_body(m: ParsedMailView) -> Option<Seq<char>> {
    if m.subparts.len() == 0 {
        m.body
    } else if first_plain(m.subparts) < m.subparts.len() {
        m.subparts[first_plain(m.subparts)].body
    } else {
        m.subparts[0].body
    }
}

/// Why a fetched message could not be read.
#[derive(Debug)]
pub enum EmailError {
    /// The raw message is no valid MIME message.
    Parse(::mailparse::MailParseError),
    /// The chosen body could not be decoded.
    BodyUndecodable,
}

/// The message made of a fetched one: its subject as title, and as body the chosen
/// body, cut at the footer and sanitised.
pub open spec fn mail_message(m: ParsedMailView, footer: Option<Seq<char>>) -> Option<crate::entry::MessageView> {
    match chosen_body(m) {
        None => None,
        Some(b) => Some(crate::entry::MessageView {
            title: first_header(m.headers, "Subject"@),
            body: Some(sanitized(match footer {
                Some(f) => before_first(b, f),
                None => b,
            })),
            link: None,
            media: None,
        }),
    }
}

impl Email {
    /// The value of the first header named exactly `key`.
    pub fn header(mail: &ParsedMail, key: &str) -> (r: Option<String>)
        ensures
            opt_view(r) == first_header(mail@.headers, key@),
    {
        let ghost hs = mail@.headers;
        let k = String::from_str(key);
        let mut i: usize = 0;
        assert(hs.skip(0) =~= hs);
        while i < mail.headers.len()
            invariant
                i <= hs.len(),
                hs == mail@.headers,
                k@ == key@,
                first_header(hs, key@) == first_header(hs.skip(i as int), key@),
            decreases mail.headers.len() - i,
        {
            assert(hs.skip(i as int)[0] == hs[i as int]);
            if mail.headers[i].0 == k {
                return Some(mail.headers[i].1.clone());
            }
            assert(hs.skip(i as int).drop_first() =~= hs.skip(i + 1));
            i = i + 1;
        }
        None
    }

    /// The body the message is read from.
    pub fn select_body(mail: &ParsedMail) -> (r: Option<String>)
        ensures
            opt_view(r) == chosen_body(mail@),
    {
        let ghost ps = mail@.subparts;
        if mail.subparts.len() == 0 {
            return crate::entry::clone_opt(&mail.body);
        }
        let plain = String::from_str("text/plain");
        let mut i: usize = 0;
        assert(ps.skip(0) =~= ps);
        while i < mail.subparts.len()
            invariant
                i <= ps.len(),
                ps == mail@.subparts,
                plain@ == "text/plain"@,
                first_plain(ps) == i + first_plain(ps.skip(i as int)),
            decreases mail.subparts.len() - i,
        {
            assert(ps.skip(i as int)[0] == ps[i as int]);
            if mail.subparts[i].mimetype == plain {
                return crate::entry::clone_opt(&mail.subparts[i].body);
            }
            assert(ps.skip(i as int).drop_first() =~= ps.skip(i + 1));
            i = i + 1;
        }
        assert(ps.skip(i as int) =~= Seq::<MailPartView>::empty());
        crate::entry::clone_opt(&mail.subparts[0].body)
    }

    /// Makes a message of a fetched one: its subject as title, its chosen body cut at
    /// the footer and sanitised.
    pub fn parse(mail: &ParsedMail, footer: Option<&str>) -> (r: Result<Message, EmailError>)
        ensures
            match mail_message(mail@, match footer { Some(f) => Some(f@), None => None }) {
                Some(m) => r matches Ok(x) && x@ == m,
                None => r matches Err(EmailError::BodyUndecodable),
            },
    {
        let subject = Email::header(mail, "Subject");
        let body = match Email::select_body(mail) {
            Some(b) => b,
            None => {
                return Err(EmailError::BodyUndecodable);
            },
        };
        let body = match footer {
            Some(f) => cut_at(body.as_str(), f),
            None => body,
        };
        let body = sanitize_html(body.as_str());
        Ok(Message { title: subject, body: Some(body), link: None, media: None })
    }

    /// Parses a raw fetched message and makes a message of it.
    pub fn parse_raw(raw: &[u8], footer: Option<&str>) -> (r: Result<Message, EmailError>)
        ensures
            match parsed_mail_of(raw@) {
                None => r matches Err(EmailError::Parse(_)),
                Some(m) => match mail_message(m, match footer { Some(f) => Some(f@), None => None }) {
                    Some(msg) => r matches Ok(x) && x@ == msg,
                    None => r matches Err(EmailError::BodyUndecodable),
                },
            },
    {
        match parse_mail_parts(raw) {
            Ok(m) => Email::parse(&m, footer),
            Err(e) => Err(EmailError::Parse(e)),
        }
    }
}

/// The XOAUTH2 initial response for logging in as `email` with access token `token`.
pub open spec fn xoauth2(email: Seq<char>, token: Seq<char>) -> Seq<char> {
    "user="@ + email + "\x01auth=Bearer "@ + token + "\x01\x01"@
}

/// The XOAUTH2 initial response that logs `email` in with `token`.
pub fn xoauth2_response(email: &str, token: &str) -> (r: String)
    ensures
        r@ == xoauth2(email@, token@),
{
    let mut r = String::from_str("user=");
    r.append(email);
    r.append("\x01auth=Bearer ");
    r.append(token);
    r.append("\x01\x01");
    r
}

} // verus!
