//! The regex operator: one pattern that extracts from a field, filters entries by a
//! field, or replaces within a field, depending on its action.

use vstd::prelude::*;
use crate::entry::{Entry, EntryView, MessageView, entries_view, opt_view};
use crate::field::{Field, TransformResult, TransformResultView};

verus! {

#[verifier::external_type_specification]
#[verifier::external_body]
pub struct ExRegexError(::regex::Error);

/// The name of whether a pattern compiles.
pub uninterp spec fn regex_compiles(re: Seq<char>) -> bool;

/// The name of what matching a pattern against a text gives: `None` when it does not
/// match, else the text of the capture group named `s` in the leftmost match, if that
/// group took part in it.
pub uninterp spec fn captures_s(re: Seq<char>, text: Seq<char>) -> Option<Option<Seq<char>>>;

/// The name of what replacing every match of a pattern in a text gives, with `$name`
/// references in the replacement expanded.
pub uninterp spec fn replaced_all(re: Seq<char>, text: Seq<char>, with: Seq<char>) -> Seq<char>;

pub open spec fn captures_view(c: Option<Option<String>>) -> Option<Option<Seq<char>>> {
    match c {
        Some(g) => Some(opt_view(g)),
        None => None,
    }
}

/// Relies on regex::Regex::new (whether the pattern compiles depends on the pattern
/// alone) and regex::Regex::captures: the leftmost match of the pattern in `text`, and
/// the group named `s` in it.
#[verifier::external_body]
fn captures_named_s(re: &str, text: &str) -> (r: Result<Option<Option<String>>, ::regex::Error>)
    ensures
        r is Ok <==> regex_compiles(re@),
        r matches Ok(c) ==> captures_view(c) == captures_s(re@, text@),
{
    let re = ::regex::Regex::new(re)?;
    Ok(re.captures(text).map(|c| c.name("s").map(|m| m.as_str().to_owned())))
}

/// Relies on regex::Regex::new (as above) and regex::Regex::replace_all: every
/// non-overlapping match replaced, with `$name` references expanded.
#[verifier::external_body]
fn replace_all_matches(re: &str, text: &str, with: &str) -> (r: Result<String, ::regex::Error>)
    ensures
        r is Ok <==> regex_compiles(re@),
        r matches Ok(s) ==> s@ == replaced_all(re@, text@, with@),
{
    let re = ::regex::Regex::new(re)?;
    Ok(re.replace_all(text, with).into_owned())
}

/// Extract the capture group `s` from a field.
#[derive(Debug, Clone, Copy)]
pub struct Extract {
    /// Keep the field as it was when nothing could be extracted, instead of failing.
    pub passthrough_if_not_found: bool,
}

/// Keep only the entries whose field matches.
#[derive(Debug, Clone, Copy)]
pub struct Find {
    pub in_field: Field,
}

/// Replace every match within a field.
#[derive(Debug)]
pub struct Replace {
    pub with: String,
}

/// Why a regex operator failed.
#[derive(Debug)]
pub enum RegexError {
    /// The pattern does not compile.
    Compile(::regex::Error),
    /// Nothing could be extracted and the field may not pass through.
    CaptureGroupMissing,
}

/// The outcome of searching a text.
#[derive(Debug, PartialEq, Eq)]
pub enum ExtractionResult {
    NotMatched,
    Matched,
    Extracted(String),
}

pub enum ExtractionResultView {
    NotMatched,
    Matched,
    Extracted(Seq<char>),
}

impl View for ExtractionResult {
    type V = ExtractionResultView;

    open spec fn view(&self) -> ExtractionResultView {
        match self {
            ExtractionResult::NotMatched => ExtractionResultView::NotMatched,
            ExtractionResult::Matched => ExtractionResultView::Matched,
            ExtractionResult::Extracted(s) => ExtractionResultView::Extracted(s@),
        }
    }
}

/// The outcome of searching `text` for `re`.
pub open spec fn extraction(re: Seq<char>, text: Seq<char>) -> ExtractionResultView {
    match captures_s(re, text) {
        None => ExtractionResultView::NotMatched,
        Some(None) => ExtractionResultView::Matched,
        Some(Some(s)) => ExtractionResultView::Extracted(s),
    }
}

/// A compiled pattern together with what to do with it.
#[derive(Debug)]
pub struct Regex<A> {
    re: String,
    action: A,
}

impl<A> Regex<A> {
    #[verifier::type_invariant]
    spec fn inv(self) -> bool {
        regex_compiles(self.re@)
    }

    pub closed spec fn spec_pattern(&self) -> Seq<char> {
        self.re@
    }

    pub closed spec fn spec_action(&self) -> A {
        self.action
    }

    /// Compiles `re` for `action`.
    pub fn new(re: &str, action: A) -> (r: Result<Self, RegexError>)
        ensures
            r is Ok <==> regex_compiles(re@),
            r matches Ok(x) ==> x.spec_pattern() == re@ && x.spec_action() == action,
            r is Err ==> r matches Err(RegexError::Compile(_)),
    {
        // Matching against the empty text compiles the pattern and nothing more.
        match captures_named_s(re, "") {
            Ok(_) => Ok(Regex { re: String::from_str(re), action }),
            Err(e) => Err(RegexError::Compile(e)),
        }
    }

    /// The pattern's source text.
    pub fn pattern(&self) -> (r: &str)
        ensures
            r@ == self.spec_pattern(),
    {
        self.re.as_str()
    }

    pub fn action(&self) -> (r: &A)
        ensures
            *r == self.spec_action(),
    {
        &self.action
    }
}

/// The outcome that a capture result stands for: no match, a match without the group
/// `s`, or the text of the group `s`.
pub fn extraction_of(c: Option<Option<String>>) -> (r: ExtractionResult)
    ensures
        r@ == match captures_view(c) {
            None => ExtractionResultView::NotMatched,
            Some(None) => ExtractionResultView::Matched,
            Some(Some(s)) => ExtractionResultView::Extracted(s),
        },
{
    match c {
        Some(Some(s)) => ExtractionResult::Extracted(s),
        Some(None) => ExtractionResult::Matched,
        None => ExtractionResult::NotMatched,
    }
}

/// Searches `text` for the pattern of `re`: no match, a match, or a match with the
/// capture group `s` extracted.
pub fn find<A>(re: &Regex<A>, text: &str) -> (r: ExtractionResult)
    ensures
        r@ == extraction(re.spec_pattern(), text@),
{
    proof {
        use_type_invariant(re);
    }
    match captures_named_s(re.re.as_str(), text) {
        Ok(c) => extraction_of(c),
        Err(_) => ExtractionResult::NotMatched,
    }
}

/// What the extract operator makes of a present field value.
pub open spec fn extract_result(re: Seq<char>, passthrough: bool, text: Seq<char>) -> Result<Seq<char>, ()> {
    match captures_s(re, text) {
        Some(Some(s)) => Ok(s),
        _ => if passthrough { Ok(text) } else { Err(()) },
    }
}

impl Regex<Extract> {
    /// The capture group `s` of the leftmost match in `text`, if any.
    pub fn extract(&self, text: &str) -> (r: Option<String>)
        ensures
            opt_view(r) == match captures_s(self.spec_pattern(), text@) {
                Some(Some(s)) => Some(s),
                _ => None,
            },
    {
        match find(self, text) {
            ExtractionResult::Extracted(s) => Some(s),
            _ => None,
        }
    }

    /// An absent field stays as it is. Otherwise the field becomes the extracted text;
    /// when there is none it is kept if passthrough is on, else this fails.
    pub fn transform_field(&self, field: Option<&str>) -> (r: Result<TransformResult, RegexError>)
        ensures
            match field {
                None => r matches Ok(t) && t@ == TransformResultView::Old,
                Some(text) => match extract_result(self.spec_pattern(), self.spec_action().passthrough_if_not_found, text@) {
                    Ok(v) => r matches Ok(t) && t@ == TransformResultView::New(Some(v)),
                    Err(_) => r matches Err(RegexError::CaptureGroupMissing),
                },
            },
    {
        let text = match field {
            Some(v) => v,
            None => {
                return Ok(TransformResult::Old);
            },
        };
        match self.extract(text) {
            Some(s) => Ok(TransformResult::New(Some(s))),
            None => {
                if self.action.passthrough_if_not_found {
                    Ok(TransformResult::New(Some(String::from_str(text))))
                } else {
                    Err(RegexError::CaptureGroupMissing)
                }
            },
        }
    }
}

/// The value of `field` in a message.
pub open spec fn field_of(m: MessageView, field: Field) -> Option<Seq<char>> {
    match field {
        Field::Title => m.title,
        Field::Body => m.body,
        Field::Link => m.link,
    }
}

/// Whether the find filter keeps `e`: its field is present and the pattern matches in it.
pub open spec fn find_keeps(re: Seq<char>, field: Field, e: EntryView) -> bool {
    match field_of(e.msg, field) {
        Some(text) => captures_s(re, text) is Some,
        None => false,
    }
}

/// The entries of `es` that the find filter keeps, in order.
pub open spec fn find_kept(re: Seq<char>, field: Field, es: Seq<EntryView>) -> Seq<EntryView>
    decreases es.len(),
{
    if es.len() == 0 {
        es
    } else {
        let rest = find_kept(re, field, es.drop_last());
        if find_keeps(re, field, es.last()) {
            rest.push(es.last())
        } else {
            rest
        }
    }
}

impl Regex<Find> {
    /// Whether the pattern matches anywhere in the chosen field of `e`.
    pub fn keeps(&self, e: &Entry) -> (r: bool)
        ensures
            r == find_keeps(self.spec_pattern(), self.spec_action().in_field, e@),
    {
        let text = match self.action.in_field {
            Field::Title => &e.msg.title,
            Field::Body => &e.msg.body,
            Field::Link => &e.msg.link,
        };
        match text {
            Some(t) => match find(self, t.as_str()) {
                ExtractionResult::NotMatched => false,
                _ => true,
            },
            None => false,
        }
    }

    /// Keeps the entries whose chosen field matches, in order.
    pub fn filter(&self, entries: &mut Vec<Entry>)
        ensures
            entries_view(final(entries)@) == find_kept(
                self.spec_pattern(),
                self.spec_action().in_field,
                entries_view(old(entries)@),
            ),
    {
        let ghost es = entries_view(entries@);
        let ghost re = self.spec_pattern();
        let ghost field = self.spec_action().in_field;
        let mut kept: Vec<Entry> = Vec::new();
        let mut i: usize = 0;
        while i < entries.len()
            invariant
                i <= entries@.len(),
                es == entries_view(entries@),
                re == self.spec_pattern(),
                field == self.spec_action().in_field,
                entries_view(kept@) == find_kept(re, field, es.take(i as int)),
            decreases entries.len() - i,
        {
            proof {
                assert(es.take(i + 1).drop_last() =~= es.take(i as int));
                assert(es.take(i + 1).last() == es[i as int]);
            }
            if self.keeps(&entries[i]) {
                let e = entries[i].duplicate();
                kept.push(e);
                assert(entries_view(kept@) =~= find_kept(re, field, es.take(i as int)).push(es[i as int]));
            }
            i = i + 1;
        }
        assert(es.take(i as int) =~= es);
        *entries = kept;
    }
}

impl Regex<Replace> {
    /// `text` with every match of the pattern replaced.
    pub fn replace(&self, text: &str) -> (r: String)
        ensures
            r@ == replaced_all(self.spec_pattern(), text@, self.spec_action().with@),
    {
        proof {
            use_type_invariant(self);
        }
        match replace_all_matches(self.re.as_str(), text, self.action.with.as_str()) {
            Ok(s) => s,
            Err(_) => String::new(),
        }
    }

    /// An absent field stays absent; a present one has every match replaced.
    pub fn transform_field(&self, field: Option<&str>) -> (r: TransformResult)
        ensures
            r@ == TransformResultView::New(match field {
                Some(text) => Some(replaced_all(self.spec_pattern(), text@, self.spec_action().with@)),
                None => None,
            }),
    {
        match field {
            Some(text) => TransformResult::New(Some(self.replace(text))),
            None => TransformResult::New(None),
        }
    }
}

} // verus!
