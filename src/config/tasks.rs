//! HTML query configuration, in the form where an attribute query names its fields.

use vstd::prelude::*;
use crate::config::ConfigError;
use crate::query as c_query;
use crate::regex_action::{Regex, Replace, regex_compiles};

verus! {

#[derive(Debug)]
pub enum ElementKind {
    Tag(String),
    Class(String),
    Attr { name: String, value: String },
}

#[derive(Debug)]
pub enum DataLocation {
    Text,
    Attr(String),
}

#[derive(Debug)]
pub struct ElementQuery {
    pub kind: ElementKind,
    pub ignore: Option<Vec<ElementKind>>,
}

#[derive(Debug)]
pub struct HtmlQueryRegex {
    pub re: String,
    pub replace_with: String,
}

#[derive(Debug)]
pub struct ElementDataQuery {
    pub optional: Option<bool>,
    pub query: Vec<ElementQuery>,
    pub data_location: DataLocation,
    pub regex: Option<HtmlQueryRegex>,
}

pub open spec fn kind_of_conf(k: ElementKind) -> c_query::ElementKind {
    match k {
        ElementKind::Tag(v) => c_query::ElementKind::Tag(v),
        ElementKind::Class(v) => c_query::ElementKind::Class(v),
        ElementKind::Attr { name, value } => c_query::ElementKind::Attr { name, value },
    }
}

pub open spec fn kinds_of_conf(v: Seq<ElementKind>) -> Seq<c_query::ElementKind> {
    Seq::new(v.len(), |i: int| kind_of_conf(v[i]))
}

pub open spec fn ignore_of_conf(q: ElementQuery) -> Option<Seq<c_query::ElementKind>> {
    match q.ignore {
        Some(v) => Some(kinds_of_conf(v@)),
        None => None,
    }
}

pub open spec fn ignore_view(i: Option<Vec<c_query::ElementKind>>) -> Option<Seq<c_query::ElementKind>> {
    match i {
        Some(v) => Some(v@),
        None => None,
    }
}

impl ElementKind {
    pub fn parse(self) -> (r: c_query::ElementKind)
        ensures
            r == kind_of_conf(self),
    {
        match self {
            ElementKind::Tag(val) => c_query::ElementKind::Tag(val),
            ElementKind::Class(val) => c_query::ElementKind::Class(val),
            ElementKind::Attr { name, value } => c_query::ElementKind::Attr { name, value },
        }
    }
}

pub fn parse_kinds(v: Vec<ElementKind>) -> (r: Vec<c_query::ElementKind>)
    ensures
        r@ == kinds_of_conf(v@),
{
    let ghost orig = v@;
    let mut v = v;
    let mut rev: Vec<c_query::ElementKind> = Vec::new();
    while v.len() > 0
        invariant
            v@.len() + rev@.len() == orig.len(),
            v@ == orig.take(v@.len() as int),
            forall|j: int| 0 <= j < rev@.len() ==> #[trigger] rev@[j] == kind_of_conf(orig[orig.len() - 1 - j]),
        decreases v.len(),
    {
        let ghost n = v@.len();
        let k = v.pop().unwrap();
        assert(k == orig[n - 1]);
        assert(v@ =~= orig.take(n - 1));
        rev.push(k.parse());
    }
    let mut r: Vec<c_query::ElementKind> = Vec::new();
    while rev.len() > 0
        invariant
            r@.len() + rev@.len() == orig.len(),
            forall|j: int| 0 <= j < rev@.len() ==> #[trigger] rev@[j] == kind_of_conf(orig[orig.len() - 1 - j]),
            forall|j: int| 0 <= j < r@.len() ==> #[trigger] r@[j] == kind_of_conf(orig[j]),
        decreases rev.len(),
    {
        let k = rev.pop().unwrap();
        r.push(k);
    }
    assert(r@ =~= kinds_of_conf(orig));
    r
}

impl DataLocation {
    pub fn parse(self) -> (r: c_query::DataLocation)
        ensures
            r == match self {
                DataLocation::Text => c_query::DataLocation::Text,
                DataLocation::Attr(v) => c_query::DataLocation::Attr(v),
            },
    {
        match self {
            DataLocation::Text => c_query::DataLocation::Text,
            DataLocation::Attr(v) => c_query::DataLocation::Attr(v),
        }
    }
}

impl ElementQuery {
    pub fn parse(self) -> (r: c_query::ElementQuery)
        ensures
            r.kind == kind_of_conf(self.kind),
            ignore_view(r.ignore) == ignore_of_conf(self),
    {
        c_query::ElementQuery {
            kind: self.kind.parse(),
            ignore: match self.ignore {
                Some(v) => Some(parse_kinds(v)),
                None => None,
            },
        }
    }
}

impl HtmlQueryRegex {
    pub fn parse(self) -> (r: Result<Regex<Replace>, ConfigError>)
        ensures
            r is Ok <==> regex_compiles(self.re@),
            r matches Ok(x) ==> x.spec_pattern() == self.re@ && x.spec_action().with == self.replace_with,
    {
        match Regex::new(self.re.as_str(), Replace { with: self.replace_with }) {
            Ok(x) => Ok(x),
            Err(e) => Err(ConfigError::Regex(e)),
        }
    }
}

impl ElementDataQuery {
    pub fn parse(self) -> (r: Result<c_query::ElementDataQuery, ConfigError>)
        ensures
            r is Ok <==> match self.regex {
                Some(re) => regex_compiles(re.re@),
                None => true,
            },
            r matches Ok(q) ==> q.optional == (self.optional == Some(true)) && q.query@.len() == self.query@.len()
                && (forall|i: int| 0 <= i < q.query@.len() ==> (#[trigger] q.query@[i]).kind == kind_of_conf(self.query@[i].kind))
                && (q.regex is Some <==> self.regex is Some),
    {
        let optional = match self.optional {
            Some(b) => b,
            None => false,
        };
        let regex = match self.regex {
            Some(re) => match re.parse() {
                Ok(x) => Some(x),
                Err(e) => {
                    return Err(e);
                },
            },
            None => None,
        };
        let ghost qs = self.query@;
        let mut src = self.query;
        let mut rev: Vec<c_query::ElementQuery> = Vec::new();
        while src.len() > 0
            invariant
                src@.len() + rev@.len() == qs.len(),
                src@ == qs.take(src@.len() as int),
                forall|j: int| 0 <= j < rev@.len() ==> (#[trigger] rev@[j]).kind == kind_of_conf(qs[qs.len() - 1 - j].kind),
            decreases src.len(),
        {
            let ghost n = src@.len();
            let q = src.pop().unwrap();
            assert(q == qs[n - 1]);
            assert(src@ =~= qs.take(n - 1));
            rev.push(q.parse());
        }
        let mut query: Vec<c_query::ElementQuery> = Vec::new();
        while rev.len() > 0
            invariant
                query@.len() + rev@.len() == qs.len(),
                forall|j: int| 0 <= j < rev@.len() ==> (#[trigger] rev@[j]).kind == kind_of_conf(qs[qs.len() - 1 - j].kind),
                forall|j: int| 0 <= j < query@.len() ==> (#[trigger] query@[j]).kind == kind_of_conf(qs[j].kind),
            decreases rev.len(),
        {
            let q = rev.pop().unwrap();
            query.push(q);
        }
        Ok(c_query::ElementDataQuery { optional, query, data_location: self.data_location.parse(), regex })
    }
}

} // verus!
