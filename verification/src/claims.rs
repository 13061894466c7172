//! The claims of a session token: a JSON object with a user, an expiry and,
//! where it has one, an address. Other members are skipped; none of the three
//! may come twice.
use crate::text::same_text;
use serde::de::IgnoredAny;
use serde_json::Deserializer;
use serde_json::Value;
use vstd::prelude::*;
use vstd::slice::slice_subrange;

verus! {

/// The mark between the name and the value of a member.
pub const COLON: u8 = 0x3a;

/// The mark between two members.
pub const COMMA: u8 = 0x2c;

/// The mark before the members of an object.
pub const OPENING_BRACE: u8 = 0x7b;

/// The mark behind the members of an object.
pub const CLOSING_BRACE: u8 = 0x7d;

/// The claim that holds the user.
pub const SUB_CLAIM: &'static str = "sub";

/// The claim that holds the address.
pub const EMAIL_CLAIM: &'static str = "email";

/// The claim that holds the expiry.
pub const EXP_CLAIM: &'static str = "exp";

/// What is read of the claims of a token.
#[derive(Clone, Copy, Debug, PartialEq, Eq, Structural)]
pub struct TokenClaims {
    /// The user.
    pub sub: i32,
    /// The expiry, in seconds since the Unix epoch.
    pub exp: u64,
}

/// A JSON value that is neither an array nor an object.
#[derive(Debug)]
pub enum JsonScalar {
    Null,
    Text(String),
    /// A number, where it is an integer of either width.
    Number(Option<u64>, Option<i64>),
    /// Anything else.
    Other,
}

/// What a JSON value holds.
#[verifier::ext_equal]
pub enum JsonScalarView {
    Null,
    Text(Seq<char>),
    Number(Option<u64>, Option<i64>),
    Other,
}

impl View for JsonScalar {
    type V = JsonScalarView;

    open spec fn view(&self) -> JsonScalarView {
        match self {
            JsonScalar::Null => JsonScalarView::Null,
            JsonScalar::Text(text) => JsonScalarView::Text(text@),
            JsonScalar::Number(unsigned, signed) => JsonScalarView::Number(*unsigned, *signed),
            JsonScalar::Other => JsonScalarView::Other,
        }
    }
}

// ---------------------------------------------------------------------------
// Outside functions.
// ---------------------------------------------------------------------------
/// How many bytes the JSON value at the front of some bytes takes, white space
/// before it included; none where no value stands there.
pub uninterp spec fn json_value_length(bytes: Seq<u8>) -> Option<nat>;

/// What the JSON value that some bytes are holds; none where they are none.
pub uninterp spec fn json_scalar_of(bytes: Seq<u8>) -> Option<JsonScalarView>;

/// Calls `serde_json::Deserializer::from_slice` and takes the first item of its
/// stream as a `serde::de::IgnoredAny`, which skips a value of any depth. The
/// contract claims that the outcome depends on the bytes alone, and that a
/// value takes at least one of them and no more than there are.
#[verifier::external_body]
fn value_length(bytes: &[u8]) -> (r: Option<usize>)
    ensures
        match r {
            Some(length) => json_value_length(bytes@) == Some(length as nat) && 0 < length
                <= bytes@.len(),
            None => json_value_length(bytes@) is None,
        },
{
    let mut values = Deserializer::from_slice(bytes).into_iter::<IgnoredAny>();
    match values.next() {
        Some(Ok(_)) => Some(values.byte_offset()),
        _ => None,
    }
}

/// Calls `serde_json::from_slice` for a `serde_json::Value`. The contract
/// claims that the outcome depends on the bytes alone.
#[verifier::external_body]
fn scalar(bytes: &[u8]) -> (r: Option<JsonScalar>)
    ensures
        match r {
            Some(value) => json_scalar_of(bytes@) == Some(value@),
            None => json_scalar_of(bytes@) is None,
        },
{
    match serde_json::from_slice::<Value>(bytes) {
        Ok(Value::Null) => Some(JsonScalar::Null),
        Ok(Value::String(text)) => Some(JsonScalar::Text(text)),
        Ok(Value::Number(number)) => Some(JsonScalar::Number(number.as_u64(), number.as_i64())),
        Ok(Value::Bool(_)) => Some(JsonScalar::Other),
        Ok(Value::Array(_)) => Some(JsonScalar::Other),
        Ok(Value::Object(_)) => Some(JsonScalar::Other),
        Err(_) => None,
    }
}

// ---------------------------------------------------------------------------
// The object.
// ---------------------------------------------------------------------------
/// JSON white space.
pub open spec fn is_json_space(byte: u8) -> bool {
    byte == 32 || byte == 10 || byte == 9 || byte == 13
}

/// Some bytes without the white space at their front.
pub open spec fn past_space(bytes: Seq<u8>) -> Seq<u8>
    decreases bytes.len(),
{
    if bytes.len() > 0 && is_json_space(bytes[0]) {
        past_space(bytes.drop_first())
    } else {
        bytes
    }
}

/// What follows a mark at the front of some bytes, white space before it
/// aside.
pub open spec fn past_mark(bytes: Seq<u8>, mark: u8) -> Option<Seq<u8>> {
    let rest = past_space(bytes);
    if rest.len() > 0 && rest[0] == mark {
        Some(rest.drop_first())
    } else {
        None
    }
}

/// The value at the front of some bytes, and what follows it.
pub open spec fn first_value(bytes: Seq<u8>) -> Option<(Seq<u8>, Seq<u8>)> {
    match json_value_length(bytes) {
        Some(length) => if 0 < length <= bytes.len() {
            Some((bytes.take(length as int), bytes.skip(length as int)))
        } else {
            None
        },
        None => None,
    }
}

/// What was read of the members of an object: the user, whether there was an
/// address, and the expiry.
#[derive(Clone, Copy, Debug, PartialEq, Eq, Structural)]
pub struct Members {
    pub sub: Option<i32>,
    pub email: bool,
    pub exp: Option<u64>,
}

/// What was read once one more member has come: a user that fits 32 bits, an
/// address that is text or `null`, an expiry that fits 64 bits, each only
/// once; any other member is skipped.
pub open spec fn with_member(members: Members, name: Seq<char>, value: Seq<u8>) -> Option<Members> {
    if name == SUB_CLAIM@ {
        match (members.sub, json_scalar_of(value)) {
            (None, Some(JsonScalarView::Number(_, Some(n)))) => if i32::MIN <= n <= i32::MAX {
                Some(Members { sub: Some(n as i32), ..members })
            } else {
                None
            },
            _ => None,
        }
    } else if name == EMAIL_CLAIM@ {
        match (members.email, json_scalar_of(value)) {
            (false, Some(JsonScalarView::Null)) => Some(Members { email: true, ..members }),
            (false, Some(JsonScalarView::Text(_))) => Some(Members { email: true, ..members }),
            _ => None,
        }
    } else if name == EXP_CLAIM@ {
        match (members.exp, json_scalar_of(value)) {
            (None, Some(JsonScalarView::Number(Some(n), _))) => Some(
                Members { exp: Some(n), ..members },
            ),
            _ => None,
        }
    } else {
        Some(members)
    }
}

/// A member at the front of some bytes: its name, its value, and what follows.
pub open spec fn first_member(bytes: Seq<u8>) -> Option<(Seq<char>, Seq<u8>, Seq<u8>)> {
    match first_value(bytes) {
        Some((name, rest)) => match (json_scalar_of(name), past_mark(rest, COLON)) {
            (Some(JsonScalarView::Text(name)), Some(rest)) => match first_value(rest) {
                Some((value, rest)) => Some((name, value, rest)),
                None => None,
            },
            _ => None,
        },
        None => None,
    }
}

/// What is read of an object from one of its members on, up to its end, behind
/// which only white space may stand.
pub open spec fn members_from(bytes: Seq<u8>, members: Members) -> Option<Members>
    decreases bytes.len(),
{
    match first_member(bytes) {
        Some((name, value, rest)) => match with_member(members, name, value) {
            Some(members) => match past_mark(rest, COMMA) {
                Some(more) => if more.len() < bytes.len() {
                    members_from(more, members)
                } else {
                    None
                },
                None => match past_mark(rest, CLOSING_BRACE) {
                    Some(end) => if past_space(end).len() == 0 {
                        Some(members)
                    } else {
                        None
                    },
                    None => None,
                },
            },
            None => None,
        },
        None => None,
    }
}

/// Nothing was read yet.
pub open spec fn no_members() -> Members {
    Members { sub: None, email: false, exp: None }
}

/// The claims that some bytes are.
pub open spec fn claims_in(bytes: Seq<u8>) -> Option<TokenClaims> {
    match past_mark(bytes, OPENING_BRACE) {
        Some(rest) => match members_from(rest, no_members()) {
            Some(members) => match (members.sub, members.exp) {
                (Some(sub), Some(exp)) => Some(TokenClaims { sub, exp }),
                _ => None,
            },
            None => None,
        },
        None => None,
    }
}

proof fn lemma_past_space_is_shorter(bytes: Seq<u8>)
    ensures
        past_space(bytes).len() <= bytes.len(),
    decreases bytes.len(),
{
    if bytes.len() > 0 {
        lemma_past_space_is_shorter(bytes.drop_first());
    }
}

fn skip_space(bytes: &[u8]) -> (r: &[u8])
    ensures
        r@ == past_space(bytes@),
{
    let mut i: usize = 0;
    assert(bytes@.skip(0) =~= bytes@);
    while i < bytes.len() && (bytes[i] == 32 || bytes[i] == 10 || bytes[i] == 9 || bytes[i] == 13)
        invariant
            i <= bytes@.len(),
            past_space(bytes@) == past_space(bytes@.skip(i as int)),
        decreases bytes@.len() - i,
    {
        assert(bytes@.skip(i as int).drop_first() =~= bytes@.skip(i + 1));
        i = i + 1;
    }
    assert(bytes@.subrange(i as int, bytes@.len() as int) =~= bytes@.skip(i as int));
    slice_subrange(bytes, i, bytes.len())
}

fn skip_mark(bytes: &[u8], mark: u8) -> (r: Option<&[u8]>)
    ensures
        match r {
            Some(rest) => past_mark(bytes@, mark) == Some(rest@) && rest@.len() < bytes@.len(),
            None => past_mark(bytes@, mark) is None,
        },
{
    proof {
        lemma_past_space_is_shorter(bytes@);
    }
    let rest: &[u8] = skip_space(bytes);
    if rest.len() > 0 && rest[0] == mark {
        assert(rest@.subrange(1, rest@.len() as int) =~= rest@.drop_first());
        Some(slice_subrange(rest, 1, rest.len()))
    } else {
        None
    }
}

fn take_value(bytes: &[u8]) -> (r: Option<(&[u8], &[u8])>)
    ensures
        match r {
            Some((value, rest)) => first_value(bytes@) == Some((value@, rest@)) && rest@.len()
                < bytes@.len(),
            None => first_value(bytes@) is None,
        },
{
    match value_length(bytes) {
        Some(length) => {
            assert(bytes@.subrange(0, length as int) =~= bytes@.take(length as int));
            assert(bytes@.subrange(length as int, bytes@.len() as int) =~= bytes@.skip(
                length as int,
            ));
            Some(
                (slice_subrange(bytes, 0, length), slice_subrange(bytes, length, bytes.len())),
            )
        },
        None => None,
    }
}

fn take_member(bytes: &[u8]) -> (r: Option<(String, &[u8], &[u8])>)
    ensures
        match r {
            Some((name, value, rest)) => first_member(bytes@) == Some((name@, value@, rest@))
                && rest@.len() < bytes@.len(),
            None => first_member(bytes@) is None,
        },
{
    match take_value(bytes) {
        Some((name, rest)) => match (scalar(name), skip_mark(rest, COLON)) {
            (Some(JsonScalar::Text(name)), Some(rest)) => match take_value(rest) {
                Some((value, rest)) => Some((name, value, rest)),
                None => None,
            },
            _ => None,
        },
        None => None,
    }
}

fn add_member(members: Members, name: &str, value: &[u8]) -> (r: Option<Members>)
    ensures
        r == with_member(members, name@, value@),
{
    if same_text(name, SUB_CLAIM) {
        match (members.sub, scalar(value)) {
            (None, Some(JsonScalar::Number(_, Some(n)))) => if i32::MIN as i64 <= n && n
                <= i32::MAX as i64 {
                Some(Members { sub: Some(n as i32), ..members })
            } else {
                None
            },
            _ => None,
        }
    } else if same_text(name, EMAIL_CLAIM) {
        match (members.email, scalar(value)) {
            (false, Some(JsonScalar::Null)) => Some(Members { email: true, ..members }),
            (false, Some(JsonScalar::Text(_))) => Some(Members { email: true, ..members }),
            _ => None,
        }
    } else if same_text(name, EXP_CLAIM) {
        match (members.exp, scalar(value)) {
            (None, Some(JsonScalar::Number(Some(n), _))) => Some(
                Members { exp: Some(n), ..members },
            ),
            _ => None,
        }
    } else {
        Some(members)
    }
}

/// Reads the claims of a token.
pub fn read_claims(bytes: &[u8]) -> (r: Option<TokenClaims>)
    ensures
        r == claims_in(bytes@),
{
    let mut rest: &[u8] = match skip_mark(bytes, OPENING_BRACE) {
        Some(rest) => rest,
        None => {
            return None;
        },
    };
    let ghost start = rest@;
    let mut members: Members = Members { sub: None, email: false, exp: None };
    loop
        invariant
            past_mark(bytes@, OPENING_BRACE) == Some(start),
            members_from(start, no_members()) == members_from(rest@, members),
        decreases rest@.len(),
    {
        let (name, value, following) = match take_member(rest) {
            Some(member) => member,
            None => {
                return None;
            },
        };
        match add_member(members, name.as_str(), value) {
            Some(more) => {
                members = more;
            },
            None => {
                return None;
            },
        }
        match skip_mark(following, COMMA) {
            Some(more) => {
                rest = more;
            },
            None => {
                return match skip_mark(following, CLOSING_BRACE) {
                    Some(end) => if skip_space(end).len() == 0 {
                        match (members.sub, members.exp) {
                            (Some(sub), Some(exp)) => Some(TokenClaims { sub, exp }),
                            _ => None,
                        }
                    } else {
                        None
                    },
                    None => None,
                };
            },
        }
    }
}

// ---------------------------------------------------------------------------
// Laws.
// ---------------------------------------------------------------------------
/// A claim was read under a name.
pub open spec fn has_member(members: Members, name: Seq<char>) -> bool {
    ||| name == SUB_CLAIM@ && members.sub is Some
    ||| name == EMAIL_CLAIM@ && members.email
    ||| name == EXP_CLAIM@ && members.exp is Some
}

/// A claim that is read may come only once: where a member repeats one, there
/// are no claims, whatever follows.
pub proof fn law_repeated_claims_are_refused(
    members: Members,
    name: Seq<char>,
    value: Seq<u8>,
    bytes: Seq<u8>,
    rest: Seq<u8>,
)
    requires
        first_member(bytes) == Some((name, value, rest)),
        has_member(members, name),
    ensures
        members_from(bytes, members) is None,
{
    reveal_strlit("sub");
    reveal_strlit("email");
    reveal_strlit("exp");
    assert("sub"@.len() != "email"@.len());
    assert("sub"@[0] != "exp"@[0]);
}

} // verus!
