//! The HTTP source: fetches one page, and the follow-link transform. The requests
//! themselves are made by the caller; this module decides what to request and what
//! to make of the answer.

use vstd::prelude::*;
use crate::entry::{Entry, EntryView, Message, opt_view, clone_opt};
use crate::link::{parse_url, url_of};

verus! {

/// The user agent sent with every request.
pub const USER_AGENT: &'static str = "Mozilla/5.0 (Windows NT 10.0; Win64; x64; rv:96.0) Gecko/20100101 Firefox/96.0";

/// Seconds after which a request is given up.
pub const TIMEOUT_SECS: u64 = 30;

/// Why the HTTP client could not be had.
#[derive(Debug, PartialEq, Eq)]
pub enum HttpError {
    /// Initialising TLS failed; the message says why.
    TlsInitFailed(String),
    /// An earlier caller already took the initialisation error.
    ClientNotInitialized,
}

/// The state of the process-wide HTTP client: built, failed with an error nobody has
/// seen yet, or failed with an error already handed out.
#[derive(Debug, PartialEq, Eq)]
pub enum ClientState {
    Ready,
    Failed(String),
    Taken,
}

impl ClientState {
    /// Hands out the client: the first caller after a failure gets the error, every
    /// later one `ClientNotInitialized`.
    pub fn acquire(&mut self) -> (r: Result<(), HttpError>)
        ensures
            match *old(self) {
                ClientState::Ready => r is Ok && *final(self) == ClientState::Ready,
                ClientState::Failed(e) => r == Err::<(), HttpError>(HttpError::TlsInitFailed(e)) && *final(self) == ClientState::Taken,
                ClientState::Taken => r == Err::<(), HttpError>(HttpError::ClientNotInitialized) && *final(self) == ClientState::Taken,
            },
    {
        let mut state = ClientState::Taken;
        std::mem::swap(&mut state, self);
        match state {
            ClientState::Ready => {
                *self = ClientState::Ready;
                Ok(())
            },
            ClientState::Failed(e) => Err(HttpError::TlsInitFailed(e)),
            ClientState::Taken => Err(HttpError::ClientNotInitialized),
        }
    }
}

/// Where the follow-link transform takes its URL from.
#[derive(Debug, Clone, Copy, PartialEq, Eq, Structural)]
pub enum TransformFromField {
    MessageLink,
    RawContents,
}

impl TransformFromField {
    /// How the field is named in messages.
    pub fn describe(&self) -> (r: String)
        ensures
            r@ == match self {
                TransformFromField::MessageLink => "message's link"@,
                TransformFromField::RawContents => "raw_contents"@,
            },
    {
        match self {
            TransformFromField::MessageLink => String::from_str("message's link"),
            TransformFromField::RawContents => String::from_str("raw_contents"),
        }
    }
}

/// Why the follow-link transform could not find a URL.
#[derive(Debug, PartialEq, Eq)]
pub enum HttpTransformError {
    /// The field to take the URL from is empty.
    MissingUrl(TransformFromField),
    /// The raw contents are no well-formed URL.
    InvalidUrl(String),
}

/// The URL the follow-link transform fetches for `e`.
pub open spec fn follow_target(e: EntryView, from: TransformFromField) -> Result<Seq<char>, ()> {
    match from {
        TransformFromField::MessageLink => match e.msg.link {
            Some(l) => Ok(l),
            None => Err(()),
        },
        TransformFromField::RawContents => match e.raw_contents {
            Some(raw) => match url_of(raw) {
                Some(u) => Ok(u),
                None => Err(()),
            },
            None => Err(()),
        },
    }
}

/// A source that fetches one page.
#[derive(Debug)]
pub struct Http {
    pub url: String,
}

impl Http {
    /// A source for `url`, if it is a well-formed URL.
    pub fn new(url: &str) -> (r: Option<Http>)
        ensures
            match url_of(url@) {
                Some(u) => r matches Some(h) && h.url@ == u,
                None => r is None,
            },
    {
        match parse_url(url) {
            Some(u) => Some(Http { url: u }),
            None => None,
        }
    }

    /// The entry made of the fetched page: the page as raw contents, the URL as link.
    pub fn entry_from_page(&self, page: String) -> (r: Entry)
        ensures
            r@.id is None,
            r@.raw_contents == Some(page@),
            r@.msg.link == Some(self.url@),
            r@.msg.title is None && r@.msg.body is None && r@.msg.media is None,
            r@.reply_to is None,
    {
        Entry {
            id: None,
            raw_contents: Some(page),
            msg: Message { title: None, body: None, link: Some(self.url.clone()), media: None },
            reply_to: None,
        }
    }

    /// The URL the follow-link transform fetches for `entry`.
    pub fn transform_target(entry: &Entry, from_field: TransformFromField) -> (r: Result<String, HttpTransformError>)
        ensures
            match follow_target(entry@, from_field) {
                Ok(u) => r matches Ok(s) && s@ == u,
                Err(_) => r is Err,
            },
            r matches Err(HttpTransformError::InvalidUrl(s)) ==> entry@.raw_contents == Some(s@),
    {
        match from_field {
            TransformFromField::MessageLink => match clone_opt(&entry.msg.link) {
                Some(l) => Ok(l),
                None => Err(HttpTransformError::MissingUrl(from_field)),
            },
            TransformFromField::RawContents => match &entry.raw_contents {
                Some(raw) => match parse_url(raw.as_str()) {
                    Some(u) => Ok(u),
                    None => Err(HttpTransformError::InvalidUrl(raw.clone())),
                },
                None => Err(HttpTransformError::MissingUrl(from_field)),
            },
        }
    }

    /// What the follow-link transform makes of `entry` once `page` was fetched from
    /// `url`: the page replaces the raw contents and `url` the link.
    pub fn apply_fetched(entry: Entry, url: String, page: String) -> (r: Entry)
        ensures
            r@ == (EntryView {
                raw_contents: Some(page@),
                msg: crate::entry::MessageView { link: Some(url@), ..entry@.msg },
                ..entry@
            }),
    {
        let Entry { id, raw_contents: _, msg, reply_to } = entry;
        Entry { id, raw_contents: Some(page), msg: Message { link: Some(url), ..msg }, reply_to }
    }
}

} // verus!
