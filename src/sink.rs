//! Sinks: where messages are delivered.

use vstd::prelude::*;
use crate::entry::{Message, MessageView};
use crate::text::chars_of;

verus! {

/// The id a sink gave a delivered message.
#[derive(Debug, Clone, Copy, PartialEq, Eq, Structural)]
pub struct MessageId(pub i64);

/// Why a delivery failed.
#[derive(Debug, PartialEq, Eq)]
pub enum SinkError {
    Network(String),
    RateLimited,
    UnsupportedPayload(String),
}

/// Delivers messages, possibly as a reply to an earlier one, and returns the id of
/// the delivered message when the sink has one.
pub trait Sink {
    fn send(&self, message: &Message, reply_to: Option<&MessageId>, tag: Option<&str>) -> Result<Option<MessageId>, SinkError>;
}

/// Where a link is placed when a message is rendered.
#[derive(Debug, Clone, Copy, PartialEq, Eq, Structural)]
pub enum LinkLocation {
    /// As the hyperlink of the title when there is one, else at the bottom.
    PreferTitle,
    /// As a line of its own at the bottom.
    Bottom,
}

/// Delivery to a Telegram chat.
#[derive(Debug)]
pub struct Telegram {
    pub token: String,
    pub chat_id: i64,
    pub link_location: LinkLocation,
}

/// How a message reads once rendered: the title (as the link's text when the link goes
/// with the title), the body, and the link on a line of its own unless it went with the
/// title, separated by blank lines; the tag, if any, goes in brackets in front.
pub open spec fn rendered(m: MessageView, tag: Option<Seq<char>>, loc: LinkLocation) -> Seq<char> {
    let link_in_title = loc == LinkLocation::PreferTitle && m.title is Some && m.link is Some;
    let title_part: Seq<char> = match m.title {
        Some(t) => if link_in_title { "<a href=\""@ + m.link->0 + "\">"@ + t + "</a>"@ } else { t },
        None => Seq::empty(),
    };
    let body_part: Seq<char> = match m.body {
        Some(b) => b,
        None => Seq::empty(),
    };
    let link_part: Seq<char> = match m.link {
        Some(l) => if link_in_title { Seq::empty() } else { l },
        None => Seq::empty(),
    };
    let text = joined(joined(title_part, body_part), link_part);
    match tag {
        Some(t) => "["@ + t + "] "@ + text,
        None => text,
    }
}

/// `a` and `b` separated by a blank line, or whichever is not empty.
pub open spec fn joined(a: Seq<char>, b: Seq<char>) -> Seq<char> {
    if a.len() == 0 {
        b
    } else if b.len() == 0 {
        a
    } else {
        a + "\n\n"@ + b
    }
}

fn join_into(a: String, b: &str) -> (r: String)
    ensures
        r@ == joined(a@, b@),
{
    if b.unicode_len() == 0 {
        return a;
    }
    if a.unicode_len() == 0 {
        return String::from_str(b);
    }
    let mut a = a;
    a.append("\n\n");
    a.append(b);
    a
}

/// Renders a message as text for a chat.
pub fn render(m: &Message, tag: Option<&str>, loc: LinkLocation) -> (r: String)
    ensures
        r@ == rendered(m@, match tag { Some(t) => Some(t@), None => None }, loc),
{
    let link_in_title = match (loc, &m.title, &m.link) {
        (LinkLocation::PreferTitle, Some(_), Some(_)) => true,
        _ => false,
    };
    let title_part = match (&m.title, &m.link) {
        (Some(t), Some(l)) => if link_in_title {
            let mut s = String::from_str("<a href=\"");
            s.append(l.as_str());
            s.append("\">");
            s.append(t.as_str());
            s.append("</a>");
            s
        } else {
            t.clone()
        },
        (Some(t), None) => t.clone(),
        (None, _) => String::new(),
    };
    let with_body = match &m.body {
        Some(b) => join_into(title_part, b.as_str()),
        None => join_into(title_part, ""),
    };
    let text = match &m.link {
        Some(l) => if link_in_title { join_into(with_body, "") } else { join_into(with_body, l.as_str()) },
        None => join_into(with_body, ""),
    };
    proof {
        reveal_strlit("");
    }
    match tag {
        Some(t) => {
            let mut s = String::from_str("[");
            s.append(t);
            s.append("] ");
            s.append(text.as_str());
            s
        },
        None => text,
    }
}

/// The end of the last occurrence of `p` in `s` that ends at or before `hi`, or 0.
pub open spec fn last_end_of(s: Seq<char>, p: Seq<char>, hi: int) -> int
    decreases hi,
{
    if hi <= 0 || hi < p.len() || hi > s.len() {
        0
    } else if s.subrange(hi - p.len(), hi) == p {
        hi
    } else {
        last_end_of(s, p, hi - 1)
    }
}

/// Where the first part of `s` ends: after the last paragraph break within `limit`
/// characters, else after the last sentence end within them, else at `limit`.
pub open spec fn cut_point(s: Seq<char>, limit: int) -> int {
    let para = last_end_of(s, "\n\n"@, limit);
    let sentence = last_end_of(s, ". "@, limit);
    let k = if para > 0 { para } else if sentence > 0 { sentence } else { limit };
    if 0 < k && k <= limit { k } else { limit }
}

/// `s` split into parts of at most `limit` characters, cut where [`cut_point`] says.
pub open spec fn split_parts(s: Seq<char>, limit: int) -> Seq<Seq<char>>
    decreases s.len(),
{
    if limit <= 0 || s.len() == 0 {
        Seq::empty()
    } else if s.len() <= limit {
        seq![s]
    } else {
        let k = cut_point(s, limit);
        seq![s.take(k)] + split_parts(s.skip(k), limit)
    }
}

fn occurs_ending_at(cs: &Vec<char>, start: usize, p: &Vec<char>, hi: usize) -> (r: bool)
    requires
        start <= cs@.len(),
        p@.len() <= hi <= cs@.len() - start,
    ensures
        r == (cs@.skip(start as int).subrange(hi - p@.len(), hi as int) == p@),
{
    let ghost t = cs@.skip(start as int);
    let n = cs.len();
    let m = p.len();
    let base = start + (hi - m);
    let mut j: usize = 0;
    while j < m
        invariant
            m == p@.len(),
            n == cs@.len(),
            base == start + hi - m,
            start <= cs@.len(),
            m <= hi <= cs@.len() - start,
            t == cs@.skip(start as int),
            j <= m,
            forall|k: int| 0 <= k < j ==> t[hi - m + k] == p@[k],
        decreases m - j,
    {
        if cs[base + j] != p[j] {
            assert(t.subrange(hi - m, hi as int)[j as int] != p@[j as int]);
            return false;
        }
        j = j + 1;
    }
    assert(t.subrange(hi - m, hi as int) =~= p@);
    true
}

fn last_end(cs: &Vec<char>, start: usize, p: &Vec<char>, hi: usize) -> (r: usize)
    requires
        start <= cs@.len(),
        hi <= cs@.len() - start,
    ensures
        r == last_end_of(cs@.skip(start as int), p@, hi as int),
{
    let ghost t = cs@.skip(start as int);
    let mut h = hi;
    while h > 0 && h >= p.len()
        invariant
            start <= cs@.len(),
            h <= hi <= cs@.len() - start,
            t == cs@.skip(start as int),
            last_end_of(t, p@, hi as int) == last_end_of(t, p@, h as int),
        decreases h,
    {
        if occurs_ending_at(cs, start, p, h) {
            return h;
        }
        h = h - 1;
    }
    0
}

/// Splits `text` into parts of at most `limit` characters, preferring to cut after a
/// paragraph break, then after a sentence end. The parts, in order, make up `text`.
pub fn split_message(text: &str, limit: usize) -> (r: Vec<String>)
    ensures
        Seq::new(r@.len(), |i: int| r@[i]@) == split_parts(text@, limit as int),
{
    let ghost s = text@;
    let mut parts: Vec<String> = Vec::new();
    if limit == 0 {
        assert(Seq::new(parts@.len(), |i: int| parts@[i]@) =~= split_parts(s, limit as int));
        return parts;
    }
    let cs = chars_of(text);
    let para = chars_of("\n\n");
    let sentence = chars_of(". ");
    let n = cs.len();
    let mut start: usize = 0;
    assert(s.skip(0) =~= s);
    while n - start > limit
        invariant
            cs@ == s,
            s == text@,
            n == s.len(),
            start <= n,
            limit > 0,
            para@ == "\n\n"@,
            sentence@ == ". "@,
            Seq::new(parts@.len(), |i: int| parts@[i]@) + split_parts(s.skip(start as int), limit as int) == split_parts(s, limit as int),
        decreases n - start,
    {
        let ghost t = s.skip(start as int);
        let a = last_end(&cs, start, &para, limit);
        let b = last_end(&cs, start, &sentence, limit);
        let k0 = if a > 0 { a } else if b > 0 { b } else { limit };
        let k = if 0 < k0 && k0 <= limit { k0 } else { limit };
        assert(k == cut_point(t, limit as int));
        let ghost before = Seq::new(parts@.len(), |i: int| parts@[i]@);
        parts.push(String::from_str(text.substring_char(start, start + k)));
        proof {
            assert(s.subrange(start as int, start + k) =~= t.take(k as int));
            assert(t.skip(k as int) =~= s.skip(start + k));
            assert(Seq::new(parts@.len(), |i: int| parts@[i]@) =~= before.push(t.take(k as int)));
            assert(split_parts(t, limit as int) == seq![t.take(k as int)] + split_parts(t.skip(k as int), limit as int));
            assert(before.push(t.take(k as int)) + split_parts(s.skip(start + k), limit as int)
                =~= before + (seq![t.take(k as int)] + split_parts(t.skip(k as int), limit as int)));
        }
        start = start + k;
    }
    let ghost before = Seq::new(parts@.len(), |i: int| parts@[i]@);
    let ghost t = s.skip(start as int);
    if start < n {
        parts.push(String::from_str(text.substring_char(start, n)));
        assert(s.subrange(start as int, n as int) =~= t);
        assert(Seq::new(parts@.len(), |i: int| parts@[i]@) =~= before + seq![t]);
    } else {
        assert(t =~= Seq::<char>::empty());
        assert(before + split_parts(t, limit as int) =~= before);
        assert(Seq::new(parts@.len(), |i: int| parts@[i]@) =~= before);
    }
    parts
}

/// Split parts put back together, in order, give the text; no part is empty or longer
/// than the limit.
pub proof fn lemma_split_parts_make_up_text(s: Seq<char>, limit: int)
    requires
        limit > 0,
    ensures
        split_parts(s, limit).flatten() == s,
        forall|i: int| 0 <= i < split_parts(s, limit).len() ==> 0 < (#[trigger] split_parts(s, limit)[i]).len() <= limit,
    decreases s.len(),
{
    let parts = split_parts(s, limit);
    if s.len() == 0 {
        assert(parts.flatten() =~= s);
    } else if s.len() <= limit {
        assert(parts.drop_first() =~= Seq::<Seq<char>>::empty());
        assert(parts.drop_first().flatten() =~= Seq::<char>::empty());
        assert(parts.first() == s);
        assert(parts.flatten() =~= s);
    } else {
        let k = cut_point(s, limit);
        let rest = split_parts(s.skip(k), limit);
        lemma_split_parts_make_up_text(s.skip(k), limit);
        assert(parts.first() == s.take(k));
        assert(parts.drop_first() =~= rest);
        assert(s.take(k) + s.skip(k) =~= s);
        assert forall|i: int| 0 <= i < parts.len() implies 0 < (#[trigger] parts[i]).len() <= limit by {
            if i > 0 {
                assert(parts[i] == rest[i - 1]);
            }
        }
    }
}

/// The id a split message is known by: that of its first part.
pub fn first_part_id(ids: &Vec<Option<MessageId>>) -> (r: Option<MessageId>)
    ensures
        r == (if ids@.len() == 0 { None } else { ids@[0] }),
{
    if ids.len() == 0 {
        None
    } else {
        ids[0]
    }
}

} // verus!
