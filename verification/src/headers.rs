//! HTTP header fields as the firewall reads them.

use crate::text;
use vstd::prelude::*;

verus! {

/// One header field. The value is absent where it is not visible ASCII text.
#[derive(Debug)]
pub struct Header {
    pub name: String,
    pub value: Option<String>,
}

/// Header fields in the order in which they came, with their names in lower case.
#[derive(Debug)]
pub struct Headers {
    pub entries: Vec<Header>,
}

/// The first field with the given name, in lower case.
pub open spec fn field_in(s: Seq<Header>, name: Seq<char>) -> Option<Header>
    decreases s.len(),
{
    if s.len() == 0 {
        None
    } else if s[0].name@ == name {
        Some(s[0])
    } else {
        field_in(s.drop_first(), name)
    }
}

/// Whether a field with this name is there; names are compared without regard to case.
pub open spec fn has_field(h: Headers, name: Seq<char>) -> bool {
    field_in(h.entries@, text::lower_of(name)) is Some
}

/// The text of the first field with this name, where it is text.
pub open spec fn field_text(h: Headers, name: Seq<char>) -> Option<Seq<char>> {
    match field_in(h.entries@, text::lower_of(name)) {
        Some(f) => f.value.deep_view(),
        None => None,
    }
}

impl Headers {
    pub fn new() -> (r: Self)
        ensures
            r.entries@ == Seq::<Header>::empty(),
    {
        Headers { entries: Vec::new() }
    }

    /// Adds a field after all others.
    pub fn append(&mut self, name: &str, value: Option<String>)
        ensures
            final(self).entries@.len() == old(self).entries@.len() + 1,
            final(self).entries@.drop_last() == old(self).entries@,
            final(self).entries@.last().name@ == text::lower_of(name@),
            final(self).entries@.last().value == value,
    {
        let name = text::to_ascii_lowercase(name);
        self.entries.push(Header { name, value });
        assert(self.entries@.drop_last() =~= old(self).entries@);
    }

    fn find(&self, name: &str) -> (r: Option<&Header>)
        ensures
            r matches Some(f) ==> field_in(self.entries@, text::lower_of(name@)) == Some(*f),
            r is None ==> field_in(self.entries@, text::lower_of(name@)) is None,
    {
        let key = text::to_ascii_lowercase(name);
        let mut i: usize = 0;
        assert(self.entries@.skip(0) =~= self.entries@);
        while i < self.entries.len()
            invariant
                i <= self.entries@.len(),
                key@ == text::lower_of(name@),
                field_in(self.entries@, key@) == field_in(self.entries@.skip(i as int), key@),
            decreases self.entries@.len() - i,
        {
            assert(self.entries@.skip(i as int)[0] == self.entries@[i as int]);
            if text::same(self.entries[i].name.as_str(), key.as_str()) {
                return Some(&self.entries[i]);
            }
            assert(self.entries@.skip(i as int).drop_first() =~= self.entries@.skip(i + 1));
            i = i + 1;
        }
        None
    }

    pub fn contains_key(&self, name: &str) -> (r: bool)
        ensures
            r == has_field(*self, name@),
    {
        self.find(name).is_some()
    }

    /// The text of the first field with this name.
    pub fn get(&self, name: &str) -> (r: Option<&str>)
        ensures
            r.deep_view() == field_text(*self, name@),
    {
        match self.find(name) {
            Some(f) => match &f.value {
                Some(v) => Some(v.as_str()),
                None => None,
            },
            None => None,
        }
    }
}

/// The text of a field, as a string of its own.
pub fn header_value(headers: &Headers, name: &str) -> (r: Option<String>)
    ensures
        r.deep_view() == field_text(*headers, name@),
{
    match headers.get(name) {
        Some(v) => Some(v.to_string()),
        None => None,
    }
}

} // verus!
