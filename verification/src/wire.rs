//! The wire conventions every endpoint shares: JSON bodies that refuse what
//! they do not recognise, page sizes that are refused rather than clamped,
//! and timestamps that are RFC 3339, always UTC, always `Z`.
use vstd::prelude::*;

use crate::error::{bad, with_status, ApiError, ErrorCode, PAYLOAD_TOO_LARGE};
use crate::text::{chars_of, starts_with, starts_with_spec, string_of};

verus! {

/// The largest JSON body accepted, in bytes.
pub const MAX_BODY: usize = 262144;

/// The page size when none is asked for.
pub const DEFAULT_LIMIT: u32 = 50;

/// The hard ceiling on a page: it bounds the work one request can ask for.
pub const MAX_LIMIT: u32 = 100;

/// Validate a requested page size. Over-limit is refused rather than
/// clamped: a client asking for 500 and silently receiving 100 concludes
/// there were only 100.
pub fn limit(requested: Option<u32>) -> (r: Result<u32, ApiError>)
    ensures
        match requested {
            None => r == Ok::<u32, ApiError>(DEFAULT_LIMIT),
            Some(n) => if 1 <= n <= MAX_LIMIT {
                r == Ok::<u32, ApiError>(n)
            } else {
                r == Err::<u32, ApiError>(bad(ErrorCode::PageTooLarge))
            },
        },
{
    match requested {
        None => Ok(DEFAULT_LIMIT),
        Some(n) => {
            if n == 0 || n > MAX_LIMIT {
                Err(ApiError::bad_request(ErrorCode::PageTooLarge))
            } else {
                Ok(n)
            }
        },
    }
}

/// A JSON request body that refuses what it does not recognise, with the
/// product's own error rather than the framework's.
#[derive(Debug)]
pub struct Body<T>(pub T);

impl<T> Body<T> {
    /// Accept a body: the content type and size first, then what the JSON
    /// reader made of the bytes (the value, or its message).
    pub fn accept(content_type: Option<&str>, length: usize, parsed: Result<T, &str>) -> (r:
        Result<Self, ApiError>)
        ensures
            !is_json(content_type) ==> r == Err::<Self, ApiError>(bad(ErrorCode::MalformedBody)),
            is_json(content_type) && length > MAX_BODY ==> r == Err::<Self, ApiError>(
                with_status(PAYLOAD_TOO_LARGE, ErrorCode::OutOfRange),
            ),
            is_json(content_type) && length <= MAX_BODY ==> match parsed {
                Ok(v) => r == Ok::<Self, ApiError>(Body(v)),
                Err(message) => r == Err::<Self, ApiError>(bad(parse_failure_code(message@))),
            },
    {
        match admit_body(content_type, length) {
            Err(e) => Err(e),
            Ok(()) => match parsed {
                Ok(v) => Ok(Body(v)),
                Err(message) => Err(parse_failure(message)),
            },
        }
    }
}

/// Whether a `Content-Type` names JSON.
pub open spec fn is_json(content_type: Option<&str>) -> bool {
    match content_type {
        Some(t) => starts_with_spec(t@, "application/json"@),
        None => false,
    }
}

/// The checks a JSON body passes before it is parsed: a JSON content type
/// (a missing or wrong one is a malformed request, not an unknown field),
/// then a bounded size.
pub fn admit_body(content_type: Option<&str>, length: usize) -> (r: Result<(), ApiError>)
    ensures
        !is_json(content_type) ==> r == Err::<(), ApiError>(bad(ErrorCode::MalformedBody)),
        is_json(content_type) && length > MAX_BODY ==> r == Err::<(), ApiError>(
            with_status(PAYLOAD_TOO_LARGE, ErrorCode::OutOfRange),
        ),
        is_json(content_type) && length <= MAX_BODY ==> r is Ok,
{
    let json = match content_type {
        Some(t) => starts_with(t, "application/json"),
        None => false,
    };
    if !json {
        return Err(ApiError::bad_request(ErrorCode::MalformedBody));
    }
    if length > MAX_BODY {
        return Err(ApiError::new(PAYLOAD_TOO_LARGE, ErrorCode::OutOfRange));
    }
    Ok(())
}

/// The registry code for a body the JSON reader refused, from the reader's
/// message: an unknown field and a missing field each have their own code,
/// and everything else is a malformed body.
pub open spec fn parse_failure_code(message: Seq<char>) -> ErrorCode {
    if starts_with_spec(message, "unknown field"@) {
        ErrorCode::UnknownField
    } else if starts_with_spec(message, "missing field"@) {
        ErrorCode::MissingField
    } else {
        ErrorCode::MalformedBody
    }
}

/// The `400` for a body the JSON reader refused.
pub fn parse_failure(message: &str) -> (e: ApiError)
    ensures
        e == bad(parse_failure_code(message@)),
{
    let code = if starts_with(message, "unknown field") {
        ErrorCode::UnknownField
    } else if starts_with(message, "missing field") {
        ErrorCode::MissingField
    } else {
        ErrorCode::MalformedBody
    };
    ApiError::bad_request(code)
}

/// The page envelope: `next_cursor` is present only when there is more.
#[derive(Debug, Clone, PartialEq, Eq)]
pub struct Page {
    pub next_cursor: Option<String>,
    pub has_more: bool,
}

/// `{ "data": [...], "page": { ... } }`.
#[derive(Debug, Clone, PartialEq, Eq)]
pub struct Paged<T> {
    pub data: Vec<T>,
    pub page: Page,
}

/// The envelope for a page, dropping a cursor when there is nothing after
/// it.
pub fn page(has_more: bool, next: Option<String>) -> (p: Page)
    ensures
        p.has_more == has_more,
        has_more ==> p.next_cursor == next,
        !has_more ==> p.next_cursor is None,
{
    Page { next_cursor: if has_more { next } else { None }, has_more }
}

// ---------------------------------------------------------------------------
// Timestamps
// ---------------------------------------------------------------------------
/// What `OffsetDateTime::format(&Rfc3339)` writes for the instant
/// `nanos` nanoseconds after the Unix epoch, at UTC offset, or `None` when
/// the instant is outside what `time` represents or the format refuses it.
pub uninterp spec fn rfc3339_utc(nanos: int) -> Option<Seq<char>>;

/// `OffsetDateTime::from_unix_timestamp_nanos` followed by
/// `format(&Rfc3339)`: the RFC 3339 text of an instant at UTC. The result is
/// named, not spelled out: the calendar arithmetic is `time`'s.
#[verifier::external_body]
pub(crate) fn format_rfc3339_utc(nanos: i128) -> (r: Option<String>)
    ensures
        match r {
            Some(s) => rfc3339_utc(nanos as int) == Some(s@),
            None => rfc3339_utc(nanos as int) is None,
        },
{
    let at = time::OffsetDateTime::from_unix_timestamp_nanos(nanos).ok()?;
    at.format(&time::format_description::well_known::Rfc3339).ok()
}

/// `s` with every `+00:00` written `Z`, scanning left to right.
pub open spec fn zulu(s: Seq<char>) -> Seq<char>
    decreases s.len(),
{
    if s.len() >= 6 && s.subrange(0, 6) == "+00:00"@ {
        seq!['Z'] + zulu(s.subrange(6, s.len() as int))
    } else if s.len() == 0 {
        s
    } else {
        seq![s[0]] + zulu(s.drop_first())
    }
}

proof fn lemma_zulu_step(s: Seq<char>, i: int)
    requires
        0 <= i <= s.len(),
    ensures
        i + 6 <= s.len() && s.subrange(i, i + 6) == "+00:00"@ ==> zulu(s.subrange(i, s.len() as int))
            == seq!['Z'] + zulu(s.subrange(i + 6, s.len() as int)),
        i < s.len() && !(i + 6 <= s.len() && s.subrange(i, i + 6) == "+00:00"@) ==> zulu(
            s.subrange(i, s.len() as int),
        ) == seq![s[i]] + zulu(s.subrange(i + 1, s.len() as int)),
{
    let t = s.subrange(i, s.len() as int);
    if i + 6 <= s.len() {
        assert(t.subrange(0, 6) =~= s.subrange(i, i + 6));
        assert(t.subrange(6, t.len() as int) =~= s.subrange(i + 6, s.len() as int));
    } else if i < s.len() {
        assert(t.len() < 6);
    }
    if i < s.len() {
        assert(t.drop_first() =~= s.subrange(i + 1, s.len() as int));
    }
}

/// Replace every `+00:00` in `s` by `Z`.
pub fn to_zulu(s: &str) -> (r: String)
    ensures
        r@ == zulu(s@),
{
    let v = chars_of(s);
    let pat = chars_of("+00:00");
    let n = v.len();
    let mut out: Vec<char> = Vec::new();
    let mut i: usize = 0;
    proof {
        reveal_strlit("+00:00");
        assert(s@.subrange(0, n as int) =~= s@);
        assert(out@ + zulu(s@) =~= zulu(s@));
    }
    while i < n
        invariant
            v@ == s@,
            pat@ == "+00:00"@,
            pat.len() == 6,
            n == v.len(),
            i <= n,
            zulu(s@) == out@ + zulu(s@.subrange(i as int, n as int)),
        decreases n - i,
    {
        proof {
            lemma_zulu_step(s@, i as int);
        }
        let mut hit = n >= 6 && i <= n - 6;
        let mut k: usize = 0;
        while hit && k < 6
            invariant
                v@ == s@,
                pat@ == "+00:00"@,
                pat.len() == 6,
                n == v.len(),
                i < n,
                k <= 6,
                hit ==> i + 6 <= n,
                hit ==> forall|m: int| 0 <= m < k ==> v@[i + m] == pat@[m],
                !hit ==> !(i + 6 <= n && s@.subrange(i as int, i + 6) == "+00:00"@),
            decreases 6 - k,
        {
            if v[i + k] != pat[k] {
                assert(s@.subrange(i as int, i + 6)[k as int] != pat@[k as int]);
                hit = false;
            }
            k = k + 1;
        }
        if hit {
            assert(s@.subrange(i as int, i + 6) =~= "+00:00"@);
            out.push('Z');
            i = i + 6;
        } else {
            out.push(v[i]);
            i = i + 1;
        }
        assert(zulu(s@) == out@ + zulu(s@.subrange(i as int, n as int)));
    }
    assert(zulu(s@.subrange(n as int, n as int)) =~= Seq::<char>::empty());
    assert(out@ + Seq::<char>::empty() =~= out@);
    string_of(&out)
}

/// The wire form of an instant: RFC 3339, UTC, with `Z`. The formatter
/// already writes `Z` for UTC; an offset spelled `+00:00`, equally valid
/// RFC 3339, is normalised here all the same, because two clients that
/// string-compare timestamps would disagree about two spellings of one
/// instant. Empty when the instant cannot be written.
pub fn timestamp(nanos: i128) -> (r: String)
    ensures
        match rfc3339_utc(nanos as int) {
            Some(text) => r@ == zulu(text),
            None => r@ == Seq::<char>::empty(),
        },
{
    match format_rfc3339_utc(nanos) {
        Some(text) => to_zulu(text.as_str()),
        None => String::new(),
    }
}

/// The instant RFC 3339 text names, as nanoseconds after the Unix epoch, or
/// `None` when `OffsetDateTime::parse(_, &Rfc3339)` refuses it.
pub uninterp spec fn rfc3339_instant(text: Seq<char>) -> Option<int>;

/// `OffsetDateTime::parse(text, &Rfc3339)`, as nanoseconds after the epoch.
#[verifier::external_body]
pub(crate) fn parse_rfc3339(text: &str) -> (r: Option<i128>)
    ensures
        match r {
            Some(n) => rfc3339_instant(text@) == Some(n as int),
            None => rfc3339_instant(text@) is None,
        },
{
    time::OffsetDateTime::parse(text, &time::format_description::well_known::Rfc3339)
        .ok()
        .map(|at| at.unix_timestamp_nanos())
}

// ---------------------------------------------------------------------------
// Identifiers
// ---------------------------------------------------------------------------
/// The UUID a text spells, as `Uuid::parse_str` reads it (hyphenated,
/// simple, braced or URN form), or `None` when it refuses the text.
pub uninterp spec fn uuid_text_value(text: Seq<char>) -> Option<u128>;

/// `uuid::Uuid::parse_str`, as the 128 bits of the UUID.
#[verifier::external_body]
pub(crate) fn parse_uuid(text: &str) -> (r: Option<u128>)
    ensures
        r == uuid_text_value(text@),
{
    match uuid::Uuid::parse_str(text) {
        Ok(id) => Some(id.as_u128()),
        Err(_) => None,
    }
}

/// A fresh identifier, as `uuid::Uuid::now_v7` makes one, in its 128 bits.
/// What it returns depends on the clock and on random bits; every outcome
/// is laid out as a version 7 UUID, which is all that is stated of it.
#[verifier::external_body]
pub(crate) fn fresh_v7() -> (id: u128)
    ensures
        crate::tasks::crud::is_v7(id),
{
    uuid::Uuid::now_v7().as_u128()
}

/// A UUID written as text: lowercase hexadecimal of its sixteen bytes, most
/// significant first, grouped 8-4-4-4-12 by hyphens.
pub open spec fn hyphenated(id: u128) -> Seq<char> {
    let h = crate::unit::hex(crate::tasks::crud::be_bytes(id as nat, 16));
    h.subrange(0, 8) + "-"@ + h.subrange(8, 12) + "-"@ + h.subrange(12, 16) + "-"@ + h.subrange(16, 20)
        + "-"@ + h.subrange(20, 32)
}

proof fn lemma_hex_len(bytes: Seq<u8>)
    ensures
        crate::unit::hex(bytes).len() == 2 * bytes.len(),
    decreases bytes.len(),
{
    if bytes.len() > 0 {
        lemma_hex_len(bytes.drop_last());
    }
}

proof fn lemma_be_len(n: nat, k: nat)
    ensures
        crate::tasks::crud::be_bytes(n, k).len() == k,
    decreases k,
{
    if k > 0 {
        lemma_be_len(n / 256, (k - 1) as nat);
    }
}

/// A UUID as text, the way a response or a log quotes it.
pub fn uuid_text(id: u128) -> (s: String)
    ensures
        s@ == hyphenated(id),
{
    let bytes = crate::tasks::crud::uuid_bytes(id);
    let hex = crate::unit::to_hex(&bytes);
    let h = chars_of(hex.as_str());
    proof {
        lemma_be_len(id as nat, 16);
        lemma_hex_len(bytes@);
        reveal_strlit("-");
    }
    let mut out: Vec<char> = Vec::new();
    let mut i: usize = 0;
    while i < 32
        invariant
            h@.len() == 32,
            i <= 32,
            out@ == (if i <= 8 {
                h@.subrange(0, i as int)
            } else if i <= 12 {
                h@.subrange(0, 8) + seq!['-'] + h@.subrange(8, i as int)
            } else if i <= 16 {
                h@.subrange(0, 8) + seq!['-'] + h@.subrange(8, 12) + seq!['-'] + h@.subrange(12, i as int)
            } else if i <= 20 {
                h@.subrange(0, 8) + seq!['-'] + h@.subrange(8, 12) + seq!['-'] + h@.subrange(12, 16)
                    + seq!['-'] + h@.subrange(16, i as int)
            } else {
                h@.subrange(0, 8) + seq!['-'] + h@.subrange(8, 12) + seq!['-'] + h@.subrange(12, 16)
                    + seq!['-'] + h@.subrange(16, 20) + seq!['-'] + h@.subrange(20, i as int)
            }),
        decreases 32 - i,
    {
        if i == 8 || i == 12 || i == 16 || i == 20 {
            out.push('-');
        }
        out.push(h[i]);
        i = i + 1;
        proof {
            assert(out@ =~= (if i <= 8 {
                h@.subrange(0, i as int)
            } else if i <= 12 {
                h@.subrange(0, 8) + seq!['-'] + h@.subrange(8, i as int)
            } else if i <= 16 {
                h@.subrange(0, 8) + seq!['-'] + h@.subrange(8, 12) + seq!['-'] + h@.subrange(12, i as int)
            } else if i <= 20 {
                h@.subrange(0, 8) + seq!['-'] + h@.subrange(8, 12) + seq!['-'] + h@.subrange(12, 16)
                    + seq!['-'] + h@.subrange(16, i as int)
            } else {
                h@.subrange(0, 8) + seq!['-'] + h@.subrange(8, 12) + seq!['-'] + h@.subrange(12, 16)
                    + seq!['-'] + h@.subrange(16, 20) + seq!['-'] + h@.subrange(20, i as int)
            }));
        }
    }
    assert("-"@ =~= seq!['-']);
    string_of(&out)
}

} // verus!
