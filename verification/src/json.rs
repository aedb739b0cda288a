//! A document tree as rule lists and team sheets arrive in: nothing,
//! truth values, numbers, texts, lists and objects.

use vstd::prelude::*;
use crate::apl::same_text;

verus! {

/// A node of a document.
#[derive(Debug)]
pub enum Json {
    Null,
    Bool(bool),
    /// A number: in millionths, and as a whole number if it was written as
    /// one.
    Number { whole: Option<i64>, fixed: i64 },
    /// A text, with what it reads as a whole number and as a number in
    /// millionths, if it reads as one.
    Text { text: String, as_whole: Option<i32>, as_fixed: Option<i64> },
    List(Vec<Json>),
    Object(Vec<JsonField>),
}

/// A named member of an object.
#[derive(Debug)]
pub struct JsonField {
    pub name: String,
    pub value: Json,
}

/// The position of the first of the fields from `from` on that is named
/// `key`; the number of fields if there is none.
pub open spec fn field_named(fields: Seq<JsonField>, key: Seq<char>, from: int) -> int
    decreases fields.len() - from,
{
    if from >= fields.len() {
        fields.len() as int
    } else if fields[from].name@ == key {
        from
    } else {
        field_named(fields, key, from + 1)
    }
}

/// `field_named` stays within the fields, and names a field of that name
/// if it names one at all.
pub proof fn lemma_field_named(fields: Seq<JsonField>, key: Seq<char>, from: int)
    requires
        0 <= from,
    ensures
        field_named(fields, key, from) <= fields.len(),
        from <= fields.len() ==> from <= field_named(fields, key, from),
        field_named(fields, key, from) < fields.len() ==> fields[field_named(fields, key, from)].name@
            == key,
    decreases fields.len() - from,
{
    if from < fields.len() && fields[from].name@ != key {
        lemma_field_named(fields, key, from + 1);
    }
}

impl Json {
    /// Whether the node is an object with a member named `key`.
    pub open spec fn has_member(&self, key: Seq<char>) -> bool {
        self matches Json::Object(fields) && field_named(fields@, key, 0) < fields@.len()
    }

    /// The first member named `key` of an object.
    pub open spec fn member(&self, key: Seq<char>) -> Json
        recommends
            self.has_member(key),
    {
        self->Object_0@[field_named(self->Object_0@, key, 0)].value
    }

    /// The first member named `key`, if the node is an object and has one.
    #[verifier::loop_isolation(false)]
    pub fn get(&self, key: &str) -> (r: Option<&Json>)
        ensures
            self.has_member(key@) ==> r == Some(&self.member(key@)),
            !self.has_member(key@) ==> r is None,
    {
        match self {
            Json::Object(fields) => {
                let mut i: usize = 0;
                while i < fields.len()
                    invariant
                        i <= fields@.len(),
                        field_named(fields@, key@, i as int) == field_named(fields@, key@, 0),
                    decreases fields@.len() - i,
                {
                    if same_text(fields[i].name.as_str(), key) {
                        return Some(&fields[i].value);
                    }
                    i += 1;
                }
                None
            },
            _ => None,
        }
    }

    /// The text of a text node.
    pub fn as_str(&self) -> (r: Option<&str>)
        ensures
            self matches Json::Text { text, .. } ==> r is Some && r->Some_0@ == text@,
            !(self is Text) ==> r is None,
    {
        match self {
            Json::Text { text, .. } => Some(text.as_str()),
            _ => None,
        }
    }

    /// The elements of a list node.
    pub fn as_array(&self) -> (r: Option<&Vec<Json>>)
        ensures
            self matches Json::List(items) ==> r == Some(items),
            !(self is List) ==> r is None,
    {
        match self {
            Json::List(items) => Some(items),
            _ => None,
        }
    }

    /// The text of the member named `key`, if there is such a member and it
    /// is a text.
    pub open spec fn text_at(&self, key: Seq<char>) -> Option<Seq<char>> {
        if self.has_member(key) && self.member(key) is Text {
            Some(self.member(key)->text@)
        } else {
            None
        }
    }

    /// The text of the first member named `key`, if that member is a text.
    pub fn get_str(&self, key: &str) -> (r: Option<&str>)
        ensures
            self.text_at(key@) is Some <==> r is Some,
            r matches Some(s) ==> self.text_at(key@) == Some(s@),
    {
        match self.get(key) {
            Some(v) => v.as_str(),
            None => None,
        }
    }
}

} // verus!
