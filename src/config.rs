//! Decoding of declarative configuration into the runtime objects.

pub mod jobs;
pub mod tasks;

use vstd::prelude::*;
use crate::field::Field as CField;
use crate::regex_action::RegexError;
use crate::read_filter::{Kind as ReadFilterKind, ReadFilter};
use crate::task::EntryToMsgMap as CEntryToMsgMap;

verus! {

/// A message field as configured.
#[derive(Debug, Clone, Copy, PartialEq, Eq, Structural)]
pub enum Field {
    Title,
    Body,
    Link,
}

pub open spec fn field_of_conf(f: Field) -> CField {
    match f {
        Field::Title => CField::Title,
        Field::Body => CField::Body,
        Field::Link => CField::Link,
    }
}

impl Field {
    pub fn decode_from_conf(self) -> (r: CField)
        ensures
            r == field_of_conf(self),
    {
        match self {
            Field::Title => CField::Title,
            Field::Body => CField::Body,
            Field::Link => CField::Link,
        }
    }

    pub fn parse(self) -> (r: CField)
        ensures
            r == field_of_conf(self),
    {
        self.decode_from_conf()
    }
}

/// Why external data could not be provided.
#[derive(Debug, PartialEq, Eq)]
pub enum ExternalDataError {
    /// The stored data could not be read; the message says why.
    Unreadable(String),
    /// A stored read-filter is of another kind than the configured one.
    ReadFilterIncompatible { expected: ReadFilterKind, found: ReadFilterKind },
}

/// What asking for external data gave.
#[derive(Debug)]
pub enum ExternalDataResult<T> {
    Found(T),
    /// There is no such data, and that is no error.
    Unavailable,
    Failed(ExternalDataError),
}

/// Provides what configuration refers to but does not hold: credentials and the state
/// kept between runs.
pub trait ProvideExternalData {
    fn telegram_bot_token(&self) -> ExternalDataResult<String>;

    fn email_password(&self) -> ExternalDataResult<String>;

    fn google_oauth2(&self) -> ExternalDataResult<crate::auth::GoogleAuth>;

    fn read_filter(&self, job: &str, task: Option<&str>, expected: ReadFilterKind) -> ExternalDataResult<ReadFilter>;

    fn entry_to_msg_map(&self, job: &str, task: Option<&str>) -> ExternalDataResult<CEntryToMsgMap>;
}

/// Why configuration could not be decoded.
#[derive(Debug)]
pub enum ConfigError {
    Regex(RegexError),
    External(ExternalDataError),
    TelegramBotTokenMissing,
    EmailPasswordMissing,
    GoogleOAuth2Missing,
    /// A refresh time is neither `<number><unit>` nor `HH:MM`.
    BadTimePoint(String),
}

} // verus!
