//! Who may publish plugins: the bearer of the repository's password.

use vstd::prelude::*;
use crate::text::chars_of;

verus! {

/// Proof that a request carries the publishing password.
#[derive(Debug, Clone, Copy, PartialEq, Eq, Structural)]
pub struct PluginPublishingAuthToken;

/// Why a request may not publish.
#[derive(Debug, Clone, Copy, PartialEq, Eq, Structural)]
pub enum AuthError {
    /// The request has no `Authorization` header.
    MissingToken,
    /// The header is not `Bearer ` followed by the password.
    InvalidToken,
}

/// A byte that a header value may hold and still be read as text: visible
/// ASCII or a tab.
pub open spec fn is_visible_ascii(b: u8) -> bool {
    (32 <= b && b < 127) || b == 9
}

/// The text of a header value where every byte is visible ASCII
/// (`HeaderValue::to_str`), `None` otherwise.
pub open spec fn header_text(h: Seq<u8>) -> Option<Seq<char>> {
    if forall|i: int| 0 <= i < h.len() ==> #[trigger] is_visible_ascii(h[i]) {
        Some(h.map_values(|b: u8| b as char))
    } else {
        None
    }
}

/// The header value that grants publishing: `Bearer ` and the password.
pub open spec fn expected_header(password: Seq<char>) -> Seq<char> {
    "Bearer "@ + password
}

/// The text of a header value, by `header_text`.
fn header_value_text(h: &[u8]) -> (res: Option<Vec<char>>)
    ensures
        match res {
            Some(t) => header_text(h@) == Some(t@),
            None => header_text(h@) is None,
        },
{
    let mut t: Vec<char> = Vec::new();
    let mut i: usize = 0;
    while i < h.len()
        invariant
            i <= h.len(),
            t@ == h@.take(i as int).map_values(|b: u8| b as char),
            forall|j: int| 0 <= j < i ==> #[trigger] is_visible_ascii(h@[j]),
        decreases h.len() - i,
    {
        let b = h[i];
        if !((32 <= b && b < 127) || b == 9) {
            assert(!is_visible_ascii(h@[i as int]));
            return None;
        }
        t.push(b as char);
        assert(h@.take(i + 1).map_values(|b: u8| b as char) =~= h@.take(i as int).map_values(
            |b: u8| b as char,
        ).push(b as char));
        i = i + 1;
    }
    assert(h@.take(h.len() as int) == h@);
    Some(t)
}

/// Decides whether a request may publish, given its `Authorization` header
/// value where it has one and the repository's password.
pub fn authorize(header: Option<&[u8]>, password: &str) -> (res: Result<PluginPublishingAuthToken, AuthError>)
    ensures
        res == match header {
            None => Err(AuthError::MissingToken),
            Some(h) => if header_text(h@) == Some(expected_header(password@)) {
                Ok(PluginPublishingAuthToken)
            } else {
                Err(AuthError::InvalidToken)
            },
        },
{
    match header {
        None => Err(AuthError::MissingToken),
        Some(h) => {
            let text = match header_value_text(h) {
                Some(t) => t,
                None => return Err(AuthError::InvalidToken),
            };
            let prefix = chars_of("Bearer ");
            let secret = chars_of(password);
            let n = prefix.len();
            if text.len() < n || text.len() - n != secret.len() {
                assert(text@.len() != expected_header(password@).len());
                return Err(AuthError::InvalidToken);
            }
            let mut i: usize = 0;
            while i < text.len()
                invariant
                    i <= text.len() == n + secret.len(),
                    n == prefix.len(),
                    prefix@ == "Bearer "@,
                    secret@ == password@,
                    header_text(h@) == Some(text@),
                    header == Some(h),
                    forall|j: int| 0 <= j < i ==> #[trigger] text@[j] == expected_header(password@)[j],
                decreases text.len() - i,
            {
                let c = if i < n { prefix[i] } else { secret[i - n] };
                assert(c == expected_header(password@)[i as int]);
                if text[i] != c {
                    assert(text@[i as int] != expected_header(password@)[i as int]);
                    assert(text@ != expected_header(password@));
                    return Err(AuthError::InvalidToken);
                }
                i = i + 1;
            }
            assert(text@ =~= expected_header(password@));
            Ok(PluginPublishingAuthToken)
        },
    }
}

} // verus!
