//! Reading and writing JSON text, as far as the messages need it.
//!
//! A message is one JSON object whose members are strings, or arrays of
//! numbers. `read_members` hands out exactly that much of a document: each
//! member's name, and its value where it is of one of these shapes.

use vstd::prelude::*;
use crate::message::{Number, NumberView};

verus! {

/// What a `Field` is, with sequences in place of vectors and strings.
pub enum FieldView {
    Text(Seq<char>),
    List(Seq<Option<NumberView>>),
    Other,
}

/// The value of one member of a JSON object.
#[derive(Clone, Debug, PartialEq, Eq)]
pub enum Field {
    /// A string.
    Text(String),
    /// An array. Each element that is a number stands here as that number,
    /// every other element as `None`.
    List(Vec<Option<Number>>),
    /// Anything else: null, a boolean, a number, an object.
    Other,
}

/// The view of one array element.
pub open spec fn element_view(element: Option<Number>) -> Option<NumberView> {
    match element {
        Some(number) => Some(number@),
        None => None,
    }
}

impl View for Field {
    type V = FieldView;

    open spec fn view(&self) -> FieldView {
        match self {
            Field::Text(text) => FieldView::Text(text@),
            Field::List(elements) => FieldView::List(
                elements@.map_values(|element: Option<Number>| element_view(element)),
            ),
            Field::Other => FieldView::Other,
        }
    }
}

/// The members of a JSON object: names and values, in the order in which the
/// reader hands them out.
pub type MembersView = Seq<(Seq<char>, FieldView)>;

/// The views of `members`, in order.
pub open spec fn members_view(members: Seq<(String, Field)>) -> MembersView {
    members.map_values(|member: (String, Field)| (member.0@, member.1@))
}

/// What `serde_json::from_str` makes of `text` when it is asked for an
/// object: the members of that object, each value as far as a `FieldView`
/// can hold it, in the order in which the object hands them out. `None`
/// where `from_str` refuses `text`. Of two members with one name the object
/// keeps the later one.
pub uninterp spec fn json_members(text: Seq<char>) -> Option<MembersView>;

/// The JSON string literal that `serde_json` writes for `text`: the text in
/// double quotes, with whatever escapes it needs.
pub uninterp spec fn json_quoted(text: Seq<char>) -> Seq<char>;

/// Reads `text` as a JSON object with `serde_json::from_str`, asked for a
/// `serde_json::Map`, and hands out its members.
///
/// The contract gives the outcome of that one call a name and claims
/// nothing else: that the same text always reads the same, as the members
/// `json_members` of it, or not at all. Nothing but `from_str` computes
/// here. What follows it only carries the object over into `Field`s, one
/// value for one: a string as it is, an array element by element (a number
/// through its accessors, as the bits of `as_f64` and the text of
/// `to_string`), and `Other` for the rest. The error is the reader's own
/// message.
#[verifier::external_body]
pub(crate) fn read_members(text: &str) -> (members: Result<Vec<(String, Field)>, String>)
    ensures
        members is Ok == json_members(text@) is Some,
        members matches Ok(found) ==> json_members(text@) == Some(members_view(found@)),
{
    let map = serde_json::from_str::<serde_json::Map<String, serde_json::Value>>(text)
        .map_err(|error| error.to_string())?;
    Ok(map.into_iter().map(|(name, value)| (name, match value {
        serde_json::Value::String(text) => Field::Text(text),
        serde_json::Value::Array(items) => Field::List(items.iter().map(|item| {
            item.as_f64().map(|value| Number::from_parts(value.to_bits(), item.to_string()))
        }).collect()),
        _ => Field::Other,
    })).collect())
}

/// Whether `c` may stand in the decimal literal of a number: a digit, a
/// sign, the point, or the mark of an exponent.
pub open spec fn is_number_character(c: char) -> bool {
    ('0' <= c && c <= '9') || c == '-' || c == '+' || c == '.' || c == 'e' || c == 'E'
}

/// Whether `text` holds nothing but what may stand in a decimal literal.
pub open spec fn is_number_text(text: Seq<char>) -> bool {
    forall|i: int| 0 <= i < text.len() ==> is_number_character(#[trigger] text[i])
}

/// The JSON object whose only member is the array with the one element
/// `literal`.
pub open spec fn sole_element_text(literal: Seq<char>) -> Seq<char> {
    "{\"value\":["@ + literal + "]}"@
}

/// The number that is the only element of the only member of `members`, if
/// they are of that shape.
pub open spec fn sole_element(members: MembersView) -> Option<NumberView> {
    if members.len() == 1 {
        match members[0].1 {
            FieldView::List(items) => if items.len() == 1 {
                items[0]
            } else {
                None
            },
            _ => None,
        }
    } else {
        None
    }
}

/// The number that the decimal literal `literal` denotes: what the JSON
/// reader finds where `literal` stands as the only element of an array.
/// `None` where `literal` holds anything that cannot stand in a number, or
/// is no number to the reader.
pub open spec fn number_of(literal: Seq<char>) -> Option<NumberView> {
    if is_number_text(literal) {
        match json_members(sole_element_text(literal)) {
            Some(members) => sole_element(members),
            None => None,
        }
    } else {
        None
    }
}

fn is_number_char(c: char) -> (fits: bool)
    ensures
        fits == is_number_character(c),
{
    ('0' <= c && c <= '9') || c == '-' || c == '+' || c == '.' || c == 'e' || c == 'E'
}

impl Number {
    /// Reads a number from its decimal literal, as it would stand in a
    /// message: `0.25`, `-1`, `1e-3`. This is how a client that steers makes
    /// the positions it sends.
    pub fn parse(literal: &str) -> (number: Option<Number>)
        ensures
            element_view(number) == number_of(literal@),
    {
        let count = literal.unicode_len();
        let mut i: usize = 0;
        while i < count
            invariant
                i <= count,
                count == literal@.len(),
                forall|k: int| 0 <= k < i ==> is_number_character(#[trigger] literal@[k]),
            decreases count - i,
        {
            if !is_number_char(literal.get_char(i)) {
                return None;
            }
            i += 1;
        }
        let mut text = "{\"value\":[".to_owned();
        text.append(literal);
        text.append("]}");
        match read_members(text.as_str()) {
            Ok(mut members) => {
                if members.len() != 1 {
                    return None;
                }
                match members.pop() {
                    Some((_, Field::List(mut items))) => {
                        if items.len() != 1 {
                            return None;
                        }
                        match items.pop() {
                            Some(element) => element,
                            None => None,
                        }
                    },
                    _ => None,
                }
            },
            Err(_) => None,
        }
    }
}

/// Writes `text` as a JSON string literal with `serde_json::to_string`.
///
/// The contract gives the literal a name, `json_quoted`, and claims nothing
/// else of it.
#[verifier::external_body]
pub(crate) fn quote(text: &str) -> (literal: String)
    ensures
        literal@ == json_quoted(text@),
{
    serde_json::to_string(text).unwrap_or_default()
}

} // verus!
