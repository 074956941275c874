//! The caller's identity, as taken from the request header that carries it.

use vstd::prelude::*;
use crate::text::chars_of;

verus! {

/// The principal a request acts for.
#[derive(Clone, Debug)]
pub struct AuthUser {
    pub user_id: String,
}

/// The identity header of a request, as the transport found it.
pub enum UserHeader {
    /// The request has no such header.
    Missing,
    /// The header's value is not text.
    NotText,
    /// The header's text.
    Text(String),
}

/// Why a request carries no usable identity.
#[derive(Clone, Copy, Debug, PartialEq, Eq, Structural)]
pub enum AuthFailure {
    MissingHeader,
    InvalidHeaderFormat,
    EmptyUserId,
}

/// White space in the sense of Unicode's `White_Space` property, which is
/// the set `char::is_whitespace` tests.
pub open spec fn is_white_space(c: char) -> bool {
    let u = c as u32;
    ||| 0x9 <= u <= 0xD
    ||| u == 0x20
    ||| u == 0x85
    ||| u == 0xA0
    ||| u == 0x1680
    ||| 0x2000 <= u <= 0x200A
    ||| u == 0x2028
    ||| u == 0x2029
    ||| u == 0x202F
    ||| u == 0x205F
    ||| u == 0x3000
}

/// Every character of `s` is white space: `s` is empty once trimmed.
pub open spec fn is_blank(s: Seq<char>) -> bool {
    forall|i: int| 0 <= i < s.len() ==> is_white_space(#[trigger] s[i])
}

/// Whether `c` is white space.
pub fn white_space(c: char) -> (r: bool)
    ensures
        r == is_white_space(c),
{
    let u = c as u32;
    (0x9 <= u && u <= 0xD) || u == 0x20 || u == 0x85 || u == 0xA0 || u == 0x1680 || (0x2000 <= u && u <= 0x200A)
        || u == 0x2028 || u == 0x2029 || u == 0x202F || u == 0x205F || u == 0x3000
}

/// Whether `s` holds nothing but white space.
pub fn blank(s: &str) -> (r: bool)
    ensures
        r == is_blank(s@),
{
    let v = chars_of(s);
    let mut i: usize = 0;
    while i < v.len()
        invariant
            v@ == s@,
            0 <= i <= v@.len(),
            forall|j: int| 0 <= j < i ==> is_white_space(#[trigger] v@[j]),
        decreases v@.len() - i,
    {
        if !white_space(v[i]) {
            return false;
        }
        i = i + 1;
    }
    true
}

/// The principal of a request, from its identity header.
pub fn authenticate(header: UserHeader) -> (r: Result<AuthUser, AuthFailure>)
    ensures
        header is Missing ==> r == Err::<AuthUser, AuthFailure>(AuthFailure::MissingHeader),
        header is NotText ==> r == Err::<AuthUser, AuthFailure>(AuthFailure::InvalidHeaderFormat),
        header matches UserHeader::Text(t) ==> {
            &&& is_blank(t@) ==> r == Err::<AuthUser, AuthFailure>(AuthFailure::EmptyUserId)
            &&& !is_blank(t@) ==> (r matches Ok(u) && u.user_id@ == t@)
        },
{
    match header {
        UserHeader::Missing => Err(AuthFailure::MissingHeader),
        UserHeader::NotText => Err(AuthFailure::InvalidHeaderFormat),
        UserHeader::Text(t) => {
            if blank(t.as_str()) {
                Err(AuthFailure::EmptyUserId)
            } else {
                Ok(AuthUser { user_id: t })
            }
        },
    }
}

impl AuthFailure {
    /// The HTTP status that reports the failure.
    pub fn status(&self) -> (r: u16)
        ensures
            *self == AuthFailure::MissingHeader ==> r == 401,
            *self != AuthFailure::MissingHeader ==> r == 400,
    {
        match self {
            AuthFailure::MissingHeader => 401,
            _ => 400,
        }
    }
}

} // verus!
