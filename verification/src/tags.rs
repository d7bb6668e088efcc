//! Tag vocabulary: a tag's name and colour.
use vstd::prelude::*;

use crate::error::{bad, conflicting, refused, ApiError, ErrorCode};
use crate::wire::{parse_uuid, uuid_text_value};
use crate::text::{chars_of, char_count, has_char, string_of, trim, trimmed};

verus! {

/// A tag as stored. No project means a workspace tag, usable on any task.
#[derive(Debug, Clone, PartialEq, Eq)]
pub struct TagRow {
    pub id: u128,
    pub project_id: Option<u128>,
    pub name: String,
    pub color: Option<String>,
}

/// A tag as the API writes it. The colour is a presentation hint only:
/// every surface renders the name too.
#[derive(Debug, Clone, PartialEq, Eq)]
pub struct TagView {
    pub id: u128,
    pub project_id: Option<u128>,
    pub name: String,
    pub color: Option<String>,
}

impl TagView {
    /// The representation of a stored tag.
    pub fn of(row: &TagRow) -> (v: Self)
        ensures
            v.id == row.id,
            v.project_id == row.project_id,
            v.name == row.name,
            v.color == row.color,
    {
        TagView { id: row.id, project_id: row.project_id, name: row.name.clone(), color: row.color.clone() }
    }
}

/// The longest tag name, in characters.
pub const MAX_NAME: usize = 48;

/// A tag name: trimmed; required (a missing field when blank); at
/// most [`MAX_NAME`] characters; and without a comma, because the filter
/// grammar makes `tag=a,b` the `in` operator, so a comma-named tag could
/// never be filtered.
pub fn validated_name(raw: &str) -> (r: Result<&str, ApiError>)
    ensures
        trimmed(raw@).len() == 0 ==> r == Err::<&str, ApiError>(bad(ErrorCode::MissingField)),
        0 < trimmed(raw@).len() && (trimmed(raw@).len() > MAX_NAME || trimmed(raw@).contains(','))
            ==> r == Err::<&str, ApiError>(bad(ErrorCode::OutOfRange)),
        0 < trimmed(raw@).len() <= MAX_NAME && !trimmed(raw@).contains(',') ==> (r matches Ok(t)
            && t@ == trimmed(raw@)),
{
    let name = trim(raw);
    let n = char_count(name);
    if n == 0 {
        return Err(ApiError::bad_request(ErrorCode::MissingField));
    }
    if n > MAX_NAME {
        return Err(ApiError::bad_request(ErrorCode::OutOfRange));
    }
    if has_char(name, ',') {
        return Err(ApiError::bad_request(ErrorCode::OutOfRange));
    }
    Ok(name)
}

pub open spec fn is_hex_char(c: char) -> bool {
    ('0' <= c && c <= '9') || ('a' <= c && c <= 'f') || ('A' <= c && c <= 'F')
}

/// `#rrggbb`.
pub open spec fn is_color(s: Seq<char>) -> bool {
    s.len() == 7 && s[0] == '#' && forall|i: int| 1 <= i < 7 ==> is_hex_char(#[trigger] s[i])
}

/// ASCII lowercase of one character.
pub open spec fn lower(c: char) -> char {
    if 'A' <= c && c <= 'Z' {
        ((c as int) + 32) as char
    } else {
        c
    }
}

/// A lowercase hex digit.
pub open spec fn is_lower_hex(c: char) -> bool {
    ('0' <= c && c <= '9') || ('a' <= c && c <= 'f')
}

/// `out` is the colour `input` stored: `#`, then each digit of `input` as a
/// lowercase hex digit, a letter `A`..`Z` moved to its lowercase letter and
/// anything else kept.
pub open spec fn lowercase_of(input: Seq<char>, out: Seq<char>) -> bool {
    &&& out.len() == 7
    &&& out[0] == '#'
    &&& forall|i: int| 1 <= i < 7 ==> is_lower_hex(#[trigger] out[i])
    &&& forall|i: int|
        1 <= i < 7 ==> if 'A' <= input[i] && input[i] <= 'Z' {
            out[i] as int == input[i] as int + 32
        } else {
            out[i] == input[i]
        }
}

/// A colour is stored in one spelling: every digit after `#` is a lowercase
/// hex digit, each upper-case letter of the input moved down to its
/// lowercase letter and every other character kept. `#FFFFFF` and
/// `#ffffff` are one colour and are stored alike.
pub proof fn law_an_accepted_colour_is_its_input_lowercased(input: Seq<char>)
    requires
        is_color(input),
    ensures
        lowercase_of(input, input.map_values(|x: char| lower(x))),
{
    let out = input.map_values(|x: char| lower(x));
    assert forall|i: int| 1 <= i < 7 implies is_lower_hex(#[trigger] out[i]) && (if 'A' <= input[i]
        && input[i] <= 'Z' {
        out[i] as int == input[i] as int + 32
    } else {
        out[i] == input[i]
    }) by {
        assert(out[i] == lower(input[i]));
        assert(is_hex_char(input[i]));
    }
}

fn lower_char(c: char) -> (r: char)
    ensures
        r == lower(c),
{
    if 'A' <= c && c <= 'Z' {
        ((c as u32) + 32) as u8 as char
    } else {
        c
    }
}

/// `#rrggbb` in lowercase, or nothing. Validated because every client that
/// renders a tag interpolates it into a style, and an unvalidated string
/// there is a place to put something that is not a colour.
pub fn validated_color(raw: Option<&str>) -> (r: Result<Option<String>, ApiError>)
    ensures
        match raw {
            None => r == Ok::<Option<String>, ApiError>(None),
            Some(c) => if trimmed(c@).len() == 0 {
                r == Ok::<Option<String>, ApiError>(None)
            } else if is_color(trimmed(c@)) {
                r matches Ok(Some(s)) && s@ == trimmed(c@).map_values(|x: char| lower(x))
                    && lowercase_of(trimmed(c@), s@)
            } else {
                r == Err::<Option<String>, ApiError>(bad(ErrorCode::OutOfRange))
            },
        },
{
    let text = match raw {
        Some(c) => c,
        None => return Ok(None),
    };
    let color = trim(text);
    let v = chars_of(color);
    if v.len() == 0 {
        return Ok(None);
    }
    if v.len() != 7 || v[0] != '#' {
        return Err(ApiError::bad_request(ErrorCode::OutOfRange));
    }
    let mut out: Vec<char> = Vec::new();
    out.push('#');
    let mut i: usize = 1;
    while i < 7
        invariant
            v@ == color@,
            raw == Some(text),
            color@ == trimmed(text@),
            v.len() == 7,
            v@[0] == '#',
            1 <= i <= 7,
            forall|k: int| 1 <= k < i ==> is_hex_char(#[trigger] v@[k]),
            out@ == v@.take(i as int).map_values(|x: char| lower(x)),
        decreases 7 - i,
    {
        let c = v[i];
        if !(('0' <= c && c <= '9') || ('a' <= c && c <= 'f') || ('A' <= c && c <= 'F')) {
            assert(!is_hex_char(color@[i as int]));
            return Err(ApiError::bad_request(ErrorCode::OutOfRange));
        }
        out.push(lower_char(c));
        assert(v@.take(i + 1).map_values(|x: char| lower(x)) =~= v@.take(i as int).map_values(
            |x: char| lower(x),
        ).push(lower(c)));
        i = i + 1;
    }
    assert(v@.take(7) =~= v@);
    proof {
        law_an_accepted_colour_is_its_input_lowercased(color@);
    }
    Ok(Some(string_of(&out)))
}

/// `POST /api/v1/tags`: a name, an optional colour, and the project the
/// tag belongs to, or none for a workspace tag.
#[derive(Debug, Clone, PartialEq, Eq)]
pub struct CreateRequest {
    pub name: String,
    pub color: Option<String>,
    pub project_id: Option<u128>,
}

/// A workspace holds a bounded vocabulary: a create once `max` tags are
/// held is refused.
pub fn within_tag_limit(held: i64, max: i64) -> (r: Result<(), ApiError>)
    ensures
        held >= max ==> r == Err::<(), ApiError>(refused(ErrorCode::TagLimit)),
        held < max ==> r is Ok,
{
    if held >= max {
        Err(ApiError::unprocessable(ErrorCode::TagLimit))
    } else {
        Ok(())
    }
}

/// An insert that wrote nothing found the name taken at that scope.
pub fn inserted<T>(row: Option<T>) -> (r: Result<T, ApiError>)
    ensures
        match row {
            Some(t) => r == Ok::<T, ApiError>(t),
            None => r == Err::<T, ApiError>(conflicting(ErrorCode::TagNameTaken)),
        },
{
    match row {
        Some(t) => Ok(t),
        None => Err(ApiError::conflict(ErrorCode::TagNameTaken)),
    }
}

/// The `project_id` a tag list is narrowed to: a UUID, or `400`.
pub fn project_filter(raw: Option<&str>) -> (r: Result<Option<u128>, ApiError>)
    ensures
        match raw {
            None => r == Ok::<Option<u128>, ApiError>(None),
            Some(text) => match uuid_text_value(text@) {
                Some(id) => r == Ok::<Option<u128>, ApiError>(Some(id)),
                None => r == Err::<Option<u128>, ApiError>(bad(ErrorCode::MalformedBody)),
            },
        },
{
    match raw {
        None => Ok(None),
        Some(text) => match parse_uuid(text) {
            Some(id) => Ok(Some(id)),
            None => Err(ApiError::bad_request(ErrorCode::MalformedBody)),
        },
    }
}

} // verus!
