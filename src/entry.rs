//! The common shape of fetched data: an [`Entry`] carrying a [`Message`].

use vstd::prelude::*;

verus! {

/// The abstract value of an optional string.
pub open spec fn opt_view(o: Option<String>) -> Option<Seq<char>> {
    match o {
        Some(s) => Some(s@),
        None => None,
    }
}

/// The abstract value of a list of strings.
pub open spec fn strings_view(v: Seq<String>) -> Seq<Seq<char>> {
    Seq::new(v.len(), |i: int| v[i]@)
}

/// Copies an optional string.
pub fn clone_opt(o: &Option<String>) -> (r: Option<String>)
    ensures
        opt_view(r) == opt_view(*o),
{
    match o {
        Some(s) => Some(s.clone()),
        None => None,
    }
}

/// Copies a list of strings.
pub fn clone_strings(v: &Vec<String>) -> (r: Vec<String>)
    ensures
        strings_view(r@) == strings_view(v@),
{
    let mut r: Vec<String> = Vec::new();
    let mut i: usize = 0;
    while i < v.len()
        invariant
            i <= v.len(),
            r@.len() == i,
            forall|j: int| 0 <= j < i ==> #[trigger] r@[j]@ == v@[j]@,
        decreases v.len() - i,
    {
        r.push(v[i].clone());
        i = i + 1;
    }
    assert(strings_view(r@) =~= strings_view(v@));
    r
}

/// The id a source gave an entry.
#[derive(Debug, Clone, PartialEq, Eq)]
pub struct EntryId(pub String);

/// The deliverable payload of an entry.
#[derive(Debug)]
pub struct Message {
    pub title: Option<String>,
    pub body: Option<String>,
    /// Always a well-formed URL when present.
    pub link: Option<String>,
    pub media: Option<Vec<String>>,
}

pub struct MessageView {
    pub title: Option<Seq<char>>,
    pub body: Option<Seq<char>>,
    pub link: Option<Seq<char>>,
    pub media: Option<Seq<Seq<char>>>,
}

impl View for Message {
    type V = MessageView;

    open spec fn view(&self) -> MessageView {
        MessageView {
            title: opt_view(self.title),
            body: opt_view(self.body),
            link: opt_view(self.link),
            media: match self.media {
                Some(m) => Some(strings_view(m@)),
                None => None,
            },
        }
    }
}

impl Message {
    /// A message with every field empty.
    pub fn empty() -> (r: Message)
        ensures
            r@.title is None,
            r@.body is None,
            r@.link is None,
            r@.media is None,
    {
        Message { title: None, body: None, link: None, media: None }
    }

    /// A field-by-field copy.
    pub fn duplicate(&self) -> (r: Message)
        ensures
            r@ == self@,
    {
        let media = match &self.media {
            Some(m) => Some(clone_strings(m)),
            None => None,
        };
        Message {
            title: clone_opt(&self.title),
            body: clone_opt(&self.body),
            link: clone_opt(&self.link),
            media,
        }
    }
}

impl Default for Message {
    fn default() -> (r: Message)
        ensures
            r@.title is None,
            r@.body is None,
            r@.link is None,
            r@.media is None,
    {
        Message::empty()
    }
}

/// One normalized item flowing through the pipeline.
#[derive(Debug)]
pub struct Entry {
    /// Unique within a source; absent until a source assigns one.
    pub id: Option<String>,
    /// The untransformed payload, kept so that later transforms can parse it again.
    pub raw_contents: Option<String>,
    pub msg: Message,
    /// Id of the entry that the sink should thread this one under.
    pub reply_to: Option<String>,
}

pub struct EntryView {
    pub id: Option<Seq<char>>,
    pub raw_contents: Option<Seq<char>>,
    pub msg: MessageView,
    pub reply_to: Option<Seq<char>>,
}

impl View for Entry {
    type V = EntryView;

    open spec fn view(&self) -> EntryView {
        EntryView {
            id: opt_view(self.id),
            raw_contents: opt_view(self.raw_contents),
            msg: self.msg@,
            reply_to: opt_view(self.reply_to),
        }
    }
}

/// The abstract values of a list of entries.
pub open spec fn entries_view(v: Seq<Entry>) -> Seq<EntryView> {
    Seq::new(v.len(), |i: int| v[i]@)
}

impl Entry {
    /// An entry with no id, no raw contents, an empty message and no reply target.
    pub fn empty() -> (r: Entry)
        ensures
            r@.id is None,
            r@.raw_contents is None,
            r@.msg.title is None,
            r@.msg.body is None,
            r@.msg.link is None,
            r@.msg.media is None,
            r@.reply_to is None,
    {
        Entry { id: None, raw_contents: None, msg: Message::empty(), reply_to: None }
    }

    /// A field-by-field copy.
    pub fn duplicate(&self) -> (r: Entry)
        ensures
            r@ == self@,
    {
        Entry {
            id: clone_opt(&self.id),
            raw_contents: clone_opt(&self.raw_contents),
            msg: self.msg.duplicate(),
            reply_to: clone_opt(&self.reply_to),
        }
    }
}

impl Default for Entry {
    fn default() -> (r: Entry)
        ensures
            r@.id is None,
            r@.raw_contents is None,
            r@.msg.title is None,
            r@.msg.body is None,
            r@.msg.link is None,
            r@.msg.media is None,
            r@.reply_to is None,
    {
        Entry::empty()
    }
}

} // verus!
