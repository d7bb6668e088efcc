//! The authorization answer, the idempotency key and its request digest,
//! and unknown query parameters: what every mutating handler does the same
//! way.
use vstd::prelude::*;
use vstd::utf8::encode_utf8;

use crate::error::{bad, denied, ApiError, ErrorCode};
use crate::order::{insert_sorted, strictly_sorted, views};
use crate::text::{one_of_strs, owned, push_char, trim, trimmed};

verus! {

/// Why a permission was denied.
#[derive(Debug, Clone, Copy, PartialEq, Eq, Structural)]
pub enum DenyReason {
    /// No grant carried the permission.
    NoGrant,
    /// A grant carried it, and its constraints were not satisfied here.
    ConstraintUnsatisfied,
}

/// A resolver's answer.
#[derive(Debug, Clone, Copy, PartialEq, Eq, Structural)]
pub enum Decision {
    Allow,
    Deny(DenyReason),
}

/// The refusal a denial becomes.
pub open spec fn denial_of(reason: DenyReason) -> ApiError {
    match reason {
        DenyReason::NoGrant => denied(ErrorCode::NoGrant),
        DenyReason::ConstraintUnsatisfied => denied(ErrorCode::ConstraintUnsatisfied),
    }
}

/// "Carry on", or the right `403`. The two reasons keep distinct codes:
/// "you were never granted this" and "your grant did not apply here" have
/// different fixes. Only for a resource the actor can already see: visibility
/// is answered with a `404` before this is reached.
pub fn authorized(decision: Decision) -> (r: Result<(), ApiError>)
    ensures
        match decision {
            Decision::Allow => r is Ok,
            Decision::Deny(reason) => r == Err::<(), ApiError>(denial_of(reason)),
        },
{
    match decision {
        Decision::Allow => Ok(()),
        Decision::Deny(DenyReason::NoGrant) => Err(ApiError::denied(ErrorCode::NoGrant)),
        Decision::Deny(DenyReason::ConstraintUnsatisfied) => Err(
            ApiError::denied(ErrorCode::ConstraintUnsatisfied),
        ),
    }
}

/// What claiming an idempotency key found.
#[derive(Debug, Clone, PartialEq, Eq)]
pub enum Claim {
    /// Never used: go ahead.
    Fresh,
    /// Already answered: the stored status and the stored response body.
    Replay { status_code: i32, response: String },
    /// Claimed by a request still running.
    InProgress,
    /// Used before with a different body.
    BodyChanged,
}

/// The status a replayed answer is sent with: the stored one when it is a
/// status code at all, else `200`.
pub open spec fn replayed_status(status_code: i32) -> u16 {
    if 100 <= status_code <= 999 {
        status_code as u16
    } else {
        200
    }
}

/// What a claim means for the request: carry on (`None`), answer again with
/// the stored response body at the stored status, or refuse. A retry with the
/// same key and body therefore gets the first answer back, and nothing is
/// created twice. A key still in flight is a `409`; a key reused with another
/// body is a `422`, because replaying an answer to a different request would
/// be a lie.
pub fn replay(claim: Claim) -> (r: Result<Option<(u16, String)>, ApiError>)
    ensures
        match claim {
            Claim::Fresh => r == Ok::<Option<(u16, String)>, ApiError>(None),
            Claim::Replay { status_code, response } => r == Ok::<
                Option<(u16, String)>,
                ApiError,
            >(Some((replayed_status(status_code), response))),
            Claim::InProgress => r == Err::<Option<(u16, String)>, ApiError>(
                crate::error::conflicting(ErrorCode::IdempotencyInProgress),
            ),
            Claim::BodyChanged => r == Err::<Option<(u16, String)>, ApiError>(
                crate::error::refused(ErrorCode::IdempotencyBodyChanged),
            ),
        },
{
    match claim {
        Claim::Fresh => Ok(None),
        Claim::Replay { status_code, response } => {
            if 100 <= status_code && status_code <= 999 {
                Ok(Some((status_code as u16, response)))
            } else {
                Ok(Some((200, response)))
            }
        },
        Claim::InProgress => Err(ApiError::conflict(ErrorCode::IdempotencyInProgress)),
        Claim::BodyChanged => Err(ApiError::unprocessable(ErrorCode::IdempotencyBodyChanged)),
    }
}

/// The header carrying a create's idempotency key.
pub const IDEMPOTENCY_HEADER: &'static str = "idempotency-key";

/// The longest key accepted, in bytes.
pub const MAX_KEY: usize = 200;

/// A usable key: trimmed, non-empty, at most [`MAX_KEY`] bytes.
pub open spec fn key_of(raw: Seq<char>) -> Option<Seq<char>> {
    let t = trimmed(raw);
    if t.len() > 0 && encode_utf8(t).len() <= MAX_KEY {
        Some(t)
    } else {
        None
    }
}

/// The `Idempotency-Key` header, required on creates: a timeout that in fact
/// succeeded would otherwise produce a duplicate nobody can detect.
pub fn idempotency_key(header: Option<&str>) -> (r: Result<String, ApiError>)
    ensures
        match header {
            Some(raw) if key_of(raw@) is Some => r matches Ok(k) && Some(k@) == key_of(raw@),
            _ => r == Err::<String, ApiError>(bad(ErrorCode::IdempotencyRequired)),
        },
{
    let raw = match header {
        Some(raw) => raw,
        None => return Err(ApiError::bad_request(ErrorCode::IdempotencyRequired)),
    };
    let t = trim(raw);
    let chars = crate::text::char_count(t);
    proof {
        crate::text::lemma_utf8_len(t@);
    }
    if chars == 0 || chars > MAX_KEY || t.len() > MAX_KEY {
        return Err(ApiError::bad_request(ErrorCode::IdempotencyRequired));
    }
    Ok(owned(t))
}

// ---------------------------------------------------------------------------
// The request digest
// ---------------------------------------------------------------------------
/// The four big-endian bytes of `n`.
pub open spec fn be4(n: u32) -> Seq<u8> {
    seq![
        (n / 16777216) as u8,
        ((n / 65536) % 256) as u8,
        ((n / 256) % 256) as u8,
        (n % 256) as u8,
    ]
}

/// The length prefix of a part: its length, saturated at `u32::MAX`.
pub open spec fn prefix_of(part: Seq<u8>) -> Seq<u8> {
    be4(
        if part.len() > u32::MAX {
            u32::MAX
        } else {
            part.len() as u32
        },
    )
}

/// Every part, length-prefixed, one after another: `("ab", "c")` and
/// `("a", "bc")` frame differently, so they cannot digest alike.
pub open spec fn framed(parts: Seq<Seq<u8>>) -> Seq<u8>
    decreases parts.len(),
{
    if parts.len() == 0 {
        Seq::empty()
    } else {
        framed(parts.drop_last()) + prefix_of(parts.last()) + parts.last()
    }
}

/// The SHA-256 digest of `data`.
pub uninterp spec fn sha256_digest(data: Seq<u8>) -> Seq<u8>;

/// `Sha256::digest`: the 32-byte SHA-256 digest of `data`.
#[verifier::external_body]
fn sha256(data: &[u8]) -> (d: Vec<u8>)
    ensures
        d@ == sha256_digest(data@),
        d@.len() == 32,
{
    <sha2::Sha256 as sha2::Digest>::digest(data).to_vec()
}

/// The lowercase hexadecimal digit for `d` (`0 <= d < 16`).
pub open spec fn hex_digit(d: int) -> char {
    if d < 10 {
        (('0' as int) + d) as char
    } else {
        (('a' as int) + d - 10) as char
    }
}

/// Two lowercase hexadecimal digits per byte, as `{:02x}` writes them.
pub open spec fn hex(bytes: Seq<u8>) -> Seq<char>
    decreases bytes.len(),
{
    if bytes.len() == 0 {
        Seq::empty()
    } else {
        hex(bytes.drop_last()) + seq![
            hex_digit((bytes.last() / 16) as int),
            hex_digit((bytes.last() % 16) as int),
        ]
    }
}

fn hex_char(d: u8) -> (c: char)
    requires
        d < 16,
    ensures
        c == hex_digit(d as int),
{
    let c = match d {
        0 => '0',
        1 => '1',
        2 => '2',
        3 => '3',
        4 => '4',
        5 => '5',
        6 => '6',
        7 => '7',
        8 => '8',
        9 => '9',
        10 => 'a',
        11 => 'b',
        12 => 'c',
        13 => 'd',
        14 => 'e',
        _ => 'f',
    };
    assert(c == hex_digit(d as int)) by {
        assert('0' as int == 48);
        assert('a' as int == 97);
    }
    c
}

/// The bytes `parts` digest over.
pub fn frame(parts: &[&[u8]]) -> (out: Vec<u8>)
    ensures
        out@ == framed(parts@.map_values(|p: &[u8]| p@)),
{
    let ghost all = parts@.map_values(|p: &[u8]| p@);
    let mut out: Vec<u8> = Vec::new();
    let mut i: usize = 0;
    while i < parts.len()
        invariant
            i <= parts@.len(),
            all == parts@.map_values(|p: &[u8]| p@),
            out@ == framed(all.take(i as int)),
        decreases parts.len() - i,
    {
        let part = parts[i];
        let n: u32 = if part.len() > 4294967295usize {
            4294967295u32
        } else {
            part.len() as u32
        };
        out.push((n / 16777216) as u8);
        out.push(((n / 65536) % 256) as u8);
        out.push(((n / 256) % 256) as u8);
        out.push((n % 256) as u8);
        let ghost head = out@;
        let mut k: usize = 0;
        while k < part.len()
            invariant
                k <= part@.len(),
                out@ == head + part@.take(k as int),
            decreases part.len() - k,
        {
            out.push(part[k]);
            assert(part@.take(k as int).push(part@[k as int]) =~= part@.take(k + 1));
            k = k + 1;
        }
        proof {
            assert(part@.take(part@.len() as int) =~= part@);
            assert(all.take(i + 1).drop_last() =~= all.take(i as int));
            assert(all.take(i + 1).last() == part@);
            assert(head =~= framed(all.take(i as int)) + prefix_of(part@));
            assert(out@ =~= framed(all.take(i + 1)));
        }
        i = i + 1;
    }
    assert(all.take(parts@.len() as int) =~= all);
    out
}

/// Lowercase hexadecimal of `bytes`.
pub fn to_hex(bytes: &Vec<u8>) -> (s: String)
    ensures
        s@ == hex(bytes@),
{
    let mut s = String::new();
    let mut i: usize = 0;
    while i < bytes.len()
        invariant
            i <= bytes.len(),
            s@ == hex(bytes@.take(i as int)),
        decreases bytes.len() - i,
    {
        let b = bytes[i];
        push_char(&mut s, hex_char(b / 16));
        push_char(&mut s, hex_char(b % 16));
        assert(bytes@.take(i + 1).drop_last() =~= bytes@.take(i as int));
        i = i + 1;
    }
    assert(bytes@.take(bytes.len() as int) =~= bytes@);
    s
}

/// A stable digest of the parts that define a create: lowercase hex of the
/// SHA-256 of the length-prefixed parts. Hashing the meaningful fields rather
/// than the raw body means a client that reorders its JSON keys on retry
/// still replays instead of being told its body changed.
pub fn hash(parts: &[&[u8]]) -> (h: String)
    ensures
        h@ == hex(sha256_digest(framed(parts@.map_values(|p: &[u8]| p@)))),
{
    let framed_bytes = frame(parts);
    let digest = sha256(framed_bytes.as_slice());
    to_hex(&digest)
}

proof fn lemma_framed_len(parts: Seq<Seq<u8>>)
    ensures
        framed(parts).len() >= 4 * parts.len(),
    decreases parts.len(),
{
    if parts.len() > 0 {
        lemma_framed_len(parts.drop_last());
    }
}

/// Framing is reversible: read from the front, each part's length prefix
/// says exactly where it ends.
pub open spec fn parse_framed(data: Seq<u8>, count: nat) -> Seq<Seq<u8>>
    decreases count,
{
    if count == 0 || data.len() < 4 {
        Seq::empty()
    } else {
        let n = data[0] as int * 16777216 + data[1] as int * 65536 + data[2] as int * 256
            + data[3] as int;
        seq![data.subrange(4, 4 + n)] + parse_framed(
            data.subrange(4 + n, data.len() as int),
            (count - 1) as nat,
        )
    }
}

/// The framing as a left fold, the way [`parse_framed`] reads it.
pub open spec fn framed_front(parts: Seq<Seq<u8>>) -> Seq<u8>
    decreases parts.len(),
{
    if parts.len() == 0 {
        Seq::empty()
    } else {
        prefix_of(parts[0]) + parts[0] + framed_front(parts.drop_first())
    }
}

proof fn lemma_framed_front(parts: Seq<Seq<u8>>)
    ensures
        framed(parts) == framed_front(parts),
    decreases parts.len(),
{
    if parts.len() > 0 {
        lemma_framed_front(parts.drop_last());
        lemma_framed_front(parts.drop_first());
        if parts.len() > 1 {
            lemma_framed_front(parts.drop_first().drop_last());
            assert(parts.drop_last().drop_first() =~= parts.drop_first().drop_last());
            assert(parts.drop_first().last() == parts.last());
            assert(framed(parts.drop_first()) =~= framed(parts.drop_first().drop_last()) + prefix_of(
                parts.last(),
            ) + parts.last());
            assert(parts.drop_last()[0] == parts[0]);
            assert(framed_front(parts.drop_last()) =~= prefix_of(parts[0]) + parts[0]
                + framed_front(parts.drop_last().drop_first()));
        } else {
            assert(parts.drop_last() =~= Seq::<Seq<u8>>::empty());
            assert(parts.drop_first() =~= Seq::<Seq<u8>>::empty());
            assert(parts.last() == parts[0]);
        }
    }
}

proof fn lemma_parse_framed(parts: Seq<Seq<u8>>, tail: Seq<u8>)
    requires
        forall|i: int| 0 <= i < parts.len() ==> #[trigger] parts[i].len() <= u32::MAX,
    ensures
        parse_framed(framed_front(parts) + tail, parts.len()) == parts,
    decreases parts.len(),
{
    if parts.len() > 0 {
        let p = parts[0];
        let rest = parts.drop_first();
        let data = framed_front(parts) + tail;
        let n = p.len() as u32;
        assert(prefix_of(p) == be4(n));
        assert(data[0] == be4(n)[0] && data[1] == be4(n)[1] && data[2] == be4(n)[2] && data[3]
            == be4(n)[3]);
        assert(n == (n / 16777216) * 16777216 + ((n / 65536) % 256) * 65536 + ((n / 256) % 256)
            * 256 + n % 256) by (nonlinear_arith);
        assert(data.subrange(4, 4 + p.len() as int) =~= p);
        assert(data.subrange(4 + p.len() as int, data.len() as int) =~= framed_front(rest) + tail);
        assert forall|i: int| 0 <= i < rest.len() implies #[trigger] rest[i].len() <= u32::MAX by {
            assert(rest[i] == parts[i + 1]);
        }
        lemma_parse_framed(rest, tail);
        assert(parse_framed(data, parts.len()) =~= seq![p] + rest);
        assert(seq![p] + rest =~= parts);
    }
}

/// Two different lists of fields never frame alike, so they never ask for
/// the digest of the same bytes: field boundaries are part of what is
/// digested. (Each field shorter than 4 GiB, where the prefix saturates.)
pub proof fn law_framing_is_injective(a: Seq<Seq<u8>>, b: Seq<Seq<u8>>)
    requires
        a.len() == b.len(),
        forall|i: int| 0 <= i < a.len() ==> #[trigger] a[i].len() <= u32::MAX,
        forall|i: int| 0 <= i < b.len() ==> #[trigger] b[i].len() <= u32::MAX,
        framed(a) == framed(b),
    ensures
        a == b,
{
    lemma_framed_front(a);
    lemma_framed_front(b);
    lemma_parse_framed(a, Seq::empty());
    lemma_parse_framed(b, Seq::empty());
    assert(framed_front(a) + Seq::<u8>::empty() =~= framed_front(a));
    assert(framed_front(b) + Seq::<u8>::empty() =~= framed_front(b));
}

// ---------------------------------------------------------------------------
// Unknown query parameters
// ---------------------------------------------------------------------------
/// A refusal naming every unknown query parameter at once, sorted, beside
/// the parameters the endpoint does accept.
#[derive(Debug, Clone, PartialEq, Eq)]
pub struct UnknownParams {
    pub error: ApiError,
    pub unknown: Vec<String>,
    /// The parameters the endpoint accepts, in the order it lists them.
    pub known: Vec<String>,
}

/// The accepted names, owned.
fn names_of(known: &[&str]) -> (names: Vec<String>)
    ensures
        names@.len() == known@.len(),
        forall|k: int| 0 <= k < known@.len() ==> (#[trigger] names@[k])@ == known@[k]@,
{
    let mut names: Vec<String> = Vec::new();
    let mut j: usize = 0;
    while j < known.len()
        invariant
            j <= known@.len(),
            names@.len() == j,
            forall|k: int| 0 <= k < j ==> (#[trigger] names@[k])@ == known@[k]@,
        decreases known.len() - j,
    {
        names.push(owned(known[j]));
        j = j + 1;
    }
    names
}

pub open spec fn is_known(known: Seq<&str>, k: Seq<char>) -> bool {
    exists|i: int| 0 <= i < known.len() && known[i]@ == k
}

proof fn lemma_push_filter(s: Seq<Seq<char>>, x: Seq<char>, f: spec_fn(Seq<char>) -> bool)
    ensures
        s.push(x).to_set().filter(f) == (if f(x) {
            s.to_set().filter(f).insert(x)
        } else {
            s.to_set().filter(f)
        }),
{
    let t = s.push(x);
    assert forall|y: Seq<char>| t.to_set().contains(y) <==> s.to_set().insert(x).contains(y) by {
        if t.to_set().contains(y) {
            let j = choose|j: int| 0 <= j < t.len() && t[j] == y;
            if j < s.len() {
                assert(s[j] == y);
                assert(s.to_set().contains(y));
            }
        }
        if s.to_set().contains(y) {
            let j = choose|j: int| 0 <= j < s.len() && s[j] == y;
            assert(t[j] == y);
        }
        if y == x {
            assert(t[s.len() as int] == y);
        }
    }
    assert(t.to_set() =~= s.to_set().insert(x));
    if f(x) {
        assert(t.to_set().filter(f) =~= s.to_set().filter(f).insert(x));
    } else {
        assert(t.to_set().filter(f) =~= s.to_set().filter(f));
    }
}

/// Refuse query parameters this endpoint does not know: `?limt=10` silently
/// returning the default page is a client bug that looks like a server bug.
/// The refusal names all of them, in order, once each.
pub fn reject_unknown(keys: &Vec<String>, known: &[&str]) -> (r: Result<(), UnknownParams>)
    ensures
        (forall|i: int| 0 <= i < keys@.len() ==> is_known(known@, #[trigger] keys@[i]@)) <==> r is Ok,
        r matches Err(u) ==> {
            &&& u.error == bad(ErrorCode::UnknownField)
            &&& u.known@.len() == known@.len()
            &&& forall|k: int| 0 <= k < known@.len() ==> (#[trigger] u.known@[k])@ == known@[k]@
            &&& strictly_sorted(views(u.unknown@))
            &&& views(u.unknown@).to_set() == views(keys@).to_set().filter(
                |k: Seq<char>| !is_known(known@, k),
            )
        },
{
    let mut unknown: Vec<String> = Vec::new();
    let mut i: usize = 0;
    while i < keys.len()
        invariant
            i <= keys@.len(),
            strictly_sorted(views(unknown@)),
            views(unknown@).to_set() == views(keys@.take(i as int)).to_set().filter(
                |k: Seq<char>| !is_known(known@, k),
            ),
        decreases keys.len() - i,
    {
        let ghost before = views(unknown@).to_set();
        let ghost taken = views(keys@.take(i as int));
        let ghost next = views(keys@.take(i + 1));
        let ghost f = |k: Seq<char>| !is_known(known@, k);
        assert(next =~= taken.push(keys@[i as int]@));
        proof {
            lemma_push_filter(taken, keys@[i as int]@, f);
        }
        if !one_of_strs(keys[i].as_str(), known) {
            let k = keys[i].clone();
            insert_sorted(&mut unknown, k);
        }
        i = i + 1;
    }
    assert(keys@.take(keys@.len() as int) =~= keys@);
    if unknown.len() == 0 {
        assert forall|j: int| 0 <= j < keys@.len() implies is_known(known@, #[trigger] keys@[j]@) by {
            if !is_known(known@, keys@[j]@) {
                assert(views(keys@)[j] == keys@[j]@);
                assert(views(keys@).to_set().contains(keys@[j]@));
                assert(views(unknown@).to_set().contains(keys@[j]@));
            }
        }
        Ok(())
    } else {
        proof {
            let x = views(unknown@)[0];
            assert(views(unknown@).to_set().contains(x));
            let j = choose|j: int| 0 <= j < keys@.len() && views(keys@)[j] == x;
            assert(!is_known(known@, keys@[j]@));
        }
        Err(
            UnknownParams {
                error: ApiError::bad_request(ErrorCode::UnknownField),
                unknown,
                known: names_of(known),
            },
        )
    }
}

} // verus!
