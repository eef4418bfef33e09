//! Field operators: transforms that rewrite one field of a message.

use vstd::prelude::*;
use crate::regex_action::{Extract, Regex, Replace};

verus! {

/// A named slot of a message.
#[derive(Debug, Clone, Copy, PartialEq, Eq, Structural)]
pub enum Field {
    Title,
    Body,
    Link,
}

/// What a field operator made of a field's value.
#[derive(Debug)]
pub enum TransformResult {
    /// Keep the previous value.
    Old,
    /// Replace the value with this one.
    New(Option<String>),
}

pub enum TransformResultView {
    Old,
    New(Option<Seq<char>>),
}

impl View for TransformResult {
    type V = TransformResultView;

    open spec fn view(&self) -> TransformResultView {
        match self {
            TransformResult::Old => TransformResultView::Old,
            TransformResult::New(v) => TransformResultView::New(crate::entry::opt_view(*v)),
        }
    }
}

/// The value a field ends up with: the previous one for `Old`, else the new one.
pub open spec fn resolved(r: TransformResultView, old: Option<Seq<char>>) -> Option<Seq<char>> {
    match r {
        TransformResultView::Old => old,
        TransformResultView::New(v) => v,
    }
}

impl TransformResult {
    /// The value a field ends up with, given its previous value.
    pub fn get(self, old: Option<String>) -> (r: Option<String>)
        ensures
            crate::entry::opt_view(r) == resolved(self@, crate::entry::opt_view(old)),
    {
        match self {
            TransformResult::Old => old,
            TransformResult::New(v) => v,
        }
    }
}

/// Whether `c` is ASCII whitespace: space, tab, line feed, form feed or carriage return.
pub open spec fn is_ascii_ws(c: char) -> bool {
    c == ' ' || c == '\t' || c == '\n' || c == '\x0C' || c == '\r'
}

/// The first index from `i` on that holds no ASCII whitespace, or the length.
pub open spec fn trim_start_from(s: Seq<char>, i: int) -> int
    decreases s.len() - i,
{
    if i < 0 || i >= s.len() || !is_ascii_ws(s[i]) {
        i
    } else {
        trim_start_from(s, i + 1)
    }
}

/// The end of `s[lo..j]` once trailing ASCII whitespace is dropped.
pub open spec fn trim_end_to(s: Seq<char>, lo: int, j: int) -> int
    decreases j - lo,
{
    if j <= lo || j > s.len() || !is_ascii_ws(s[j - 1]) {
        j
    } else {
        trim_end_to(s, lo, j - 1)
    }
}

/// `s` without leading and trailing ASCII whitespace.
pub open spec fn trim_ascii(s: Seq<char>) -> Seq<char> {
    let lo = trim_start_from(s, 0);
    s.subrange(lo, trim_end_to(s, lo, s.len() as int))
}

/// Strips ASCII whitespace from both ends of `s`.
pub fn trim(s: &str) -> (r: String)
    ensures
        r@ == trim_ascii(s@),
{
    let n = s.unicode_len();
    let mut lo: usize = 0;
    while lo < n && is_ws(s.get_char(lo))
        invariant
            n == s@.len(),
            lo <= n,
            trim_start_from(s@, lo as int) == trim_start_from(s@, 0),
        decreases n - lo,
    {
        lo = lo + 1;
    }
    let mut hi: usize = n;
    while hi > lo && is_ws(s.get_char(hi - 1))
        invariant
            n == s@.len(),
            lo <= hi <= n,
            lo == trim_start_from(s@, 0),
            trim_end_to(s@, lo as int, hi as int) == trim_end_to(s@, lo as int, n as int),
        decreases hi,
    {
        hi = hi - 1;
    }
    String::from_str(s.substring_char(lo, hi))
}

fn is_ws(c: char) -> (r: bool)
    ensures
        r == is_ascii_ws(c),
{
    c == ' ' || c == '\t' || c == '\n' || c == '\x0C' || c == '\r'
}

/// The name of what Unicode upper-casing makes of a string.
pub uninterp spec fn upper_of(s: Seq<char>) -> Seq<char>;

/// Relies on str::to_uppercase: the result depends on the characters alone, and an
/// empty string stays empty.
#[verifier::external_body]
fn to_uppercase(s: &str) -> (r: String)
    ensures
        r@ == upper_of(s@),
        s@.len() == 0 ==> r@.len() == 0,
{
    s.to_uppercase()
}

/// Unicode upper-casing of `s`.
pub fn caps(s: &str) -> (r: String)
    ensures
        r@ == upper_of(s@),
{
    to_uppercase(s)
}

/// `s` cut to `n` characters with an ellipsis appended, if it is longer than that.
pub open spec fn shortened(s: Seq<char>, n: nat) -> Seq<char> {
    if s.len() > n {
        s.take(n as int).push('…')
    } else {
        s
    }
}

/// Cuts text that is longer than `len` characters.
#[derive(Debug, Clone, Copy)]
pub struct Shorten {
    pub len: usize,
}

impl Shorten {
    /// `s` itself if it has at most `len` characters, else its first `len` characters
    /// followed by an ellipsis.
    pub fn shorten(&self, s: &str) -> (r: String)
        ensures
            r@ == shortened(s@, self.len as nat),
    {
        let n = s.unicode_len();
        if n > self.len {
            let mut r = String::from_str(s.substring_char(0, self.len));
            let ellipsis = "…";
            proof {
                reveal_strlit("…");
            }
            r.append(ellipsis);
            assert(r@ =~= s@.take(self.len as int).push('…'));
            r
        } else {
            String::from_str(s)
        }
    }
}

/// An operator on the value of one field.
#[derive(Debug)]
pub enum Kind {
    Trim,
    Caps,
    Shorten(Shorten),
    Extract(Regex<Extract>),
    Replace(Regex<Replace>),
}

} // verus!
