//! HTTP Basic authentication.

use crate::config::{optional_str, ServerConfig};
use crate::model::optional_text;
use crate::text::{chars_of, find_char, next_char_is_first, same_text};
use base64::Engine;
use vstd::prelude::*;
use vstd::string::*;
use vstd::utf8::*;

verus! {

/// Whether access is protected: by a user name and a password where there are credentials, not
/// at all where there are none.
#[derive(Debug, Clone)]
pub struct AuthConfig {
    pub credentials: Option<(String, String)>,
}

/// What becomes of a request.
#[derive(Debug)]
pub enum AuthDecision {
    Proceed,
    Refuse { status: u16, www_authenticate: String },
}

/// The symbol that stands for six bits.
pub open spec fn base64_symbol(bits: int) -> char {
    if bits < 26 {
        ('A' as int + bits) as char
    } else if bits < 52 {
        ('a' as int + (bits - 26)) as char
    } else if bits < 62 {
        ('0' as int + (bits - 52)) as char
    } else if bits == 62 {
        '+'
    } else {
        '/'
    }
}

/// The text that writes bytes in base 64: four symbols for three bytes, padded at the end.
pub open spec fn base64_text(bytes: Seq<u8>) -> Seq<char>
    decreases bytes.len(),
{
    if bytes.len() == 0 {
        Seq::empty()
    } else if bytes.len() == 1 {
        seq![
            base64_symbol(bytes[0] as int / 4),
            base64_symbol(bytes[0] as int % 4 * 16),
            '=',
            '=',
        ]
    } else if bytes.len() == 2 {
        seq![
            base64_symbol(bytes[0] as int / 4),
            base64_symbol(bytes[0] as int % 4 * 16 + bytes[1] as int / 16),
            base64_symbol(bytes[1] as int % 16 * 4),
            '=',
        ]
    } else {
        seq![
            base64_symbol(bytes[0] as int / 4),
            base64_symbol(bytes[0] as int % 4 * 16 + bytes[1] as int / 16),
            base64_symbol(bytes[1] as int % 16 * 4 + bytes[2] as int / 64),
            base64_symbol(bytes[2] as int % 64),
        ] + base64_text(bytes.skip(3))
    }
}

/// The header that shows a user name and a password.
pub open spec fn basic_header(user: Seq<char>, password: Seq<char>) -> Seq<char> {
    "Basic "@ + base64_text(encode_utf8(user + ":"@ + password))
}

/// A header shows exactly these credentials. A user name with a colon cannot be shown.
pub open spec fn shows_credentials(
    header: Option<Seq<char>>,
    user: Seq<char>,
    password: Seq<char>,
) -> bool {
    &&& header is Some
    &&& !user.contains(':')
    &&& header->0 == basic_header(user, password)
}

/// Symbols for different bits differ, and none is the padding.
proof fn symbols_differ(a: int, b: int)
    requires
        0 <= a < 64,
        0 <= b < 64,
    ensures
        base64_symbol(a) == base64_symbol(b) ==> a == b,
        base64_symbol(a) != '=',
{
}

/// Different bytes are written differently.
pub proof fn base64_text_is_unique(a: Seq<u8>, b: Seq<u8>)
    requires
        base64_text(a) == base64_text(b),
    ensures
        a == b,
    decreases a.len(),
{
    let text = base64_text(a);
    if a.len() == 0 || b.len() == 0 {
        assert(text.len() == 0);
        assert(a =~= b);
    } else {
        let a0 = a[0] as int;
        let b0 = b[0] as int;
        let a1 = if a.len() > 1 {
            a[1] as int
        } else {
            0
        };
        let b1 = if b.len() > 1 {
            b[1] as int
        } else {
            0
        };
        let a2 = if a.len() > 2 {
            a[2] as int
        } else {
            0
        };
        let b2 = if b.len() > 2 {
            b[2] as int
        } else {
            0
        };
        symbols_differ(a0 / 4, b0 / 4);
        symbols_differ(a0 % 4 * 16 + a1 / 16, b0 % 4 * 16 + b1 / 16);
        symbols_differ(a1 % 16 * 4 + a2 / 64, b1 % 16 * 4 + b2 / 64);
        symbols_differ(b1 % 16 * 4 + b2 / 64, a1 % 16 * 4 + a2 / 64);
        symbols_differ(a2 % 64, b2 % 64);
        symbols_differ(b2 % 64, a2 % 64);
        assert(base64_text(a)[0] == base64_text(b)[0]);
        assert(base64_text(a)[1] == base64_text(b)[1]);
        assert(base64_text(a)[2] == base64_text(b)[2]);
        assert(base64_text(a)[3] == base64_text(b)[3]);
        assert(base64_text(a)[0] == base64_symbol(a0 / 4));
        assert(base64_text(b)[0] == base64_symbol(b0 / 4));
        assert(base64_text(a)[1] == base64_symbol(a0 % 4 * 16 + a1 / 16));
        assert(base64_text(b)[1] == base64_symbol(b0 % 4 * 16 + b1 / 16));
        assert(a0 == b0);
        assert(a1 / 16 == b1 / 16);
        if a.len() == 1 || b.len() == 1 {
            assert(base64_text(a)[2] == '=');
            assert(a.len() == 1 && b.len() == 1);
        } else {
            assert(base64_text(a)[2] == base64_symbol(a1 % 16 * 4 + a2 / 64));
            assert(base64_text(b)[2] == base64_symbol(b1 % 16 * 4 + b2 / 64));
            assert(a1 == b1);
            if a.len() == 2 || b.len() == 2 {
                assert(base64_text(a)[3] == '=');
                assert(a.len() == 2 && b.len() == 2);
            } else {
                assert(base64_text(a)[3] == base64_symbol(a2 % 64));
                assert(base64_text(b)[3] == base64_symbol(b2 % 64));
                assert(a2 == b2);
                assert(base64_text(a).skip(4) =~= base64_text(a.skip(3)));
                assert(base64_text(b).skip(4) =~= base64_text(b.skip(3)));
                base64_text_is_unique(a.skip(3), b.skip(3));
                assert forall|i: int| 0 <= i < a.len() implies a[i] == b[i] by {
                    if i >= 3 {
                        assert(a.skip(3)[i - 3] == b.skip(3)[i - 3]);
                    }
                }
                assert(a.len() == a.skip(3).len() + 3);
                assert(b.len() == b.skip(3).len() + 3);
            }
        }
        assert(a =~= b);
    }
}

/// Calls `base64::Engine::decode` of `base64::engine::general_purpose::STANDARD`, which takes
/// the standard alphabet, wants the padding, and refuses bits that are left over. Claimed: the
/// text writes the bytes that come back; where none come back, it writes no bytes.
#[verifier::external_body]
fn decode_base64(text: &str) -> (decoded: Option<Vec<u8>>)
    ensures
        match decoded {
            Some(bytes) => base64_text(bytes@) == text@,
            None => forall|any: Seq<u8>| #[trigger] base64_text(any) != text@,
        },
{
    base64::engine::general_purpose::STANDARD.decode(text).ok()
}

/// Calls `String::from_utf8`. Claimed: the text whose UTF-8 form the bytes are, where they are
/// valid UTF-8, and nothing where they are not.
#[verifier::external_body]
fn text_of_utf8(bytes: Vec<u8>) -> (text: Option<String>)
    ensures
        match text {
            Some(text) => encode_utf8(text@) == bytes@,
            None => !valid_utf8(bytes@),
        },
{
    String::from_utf8(bytes).ok()
}

/// Whether a text is a user name, a colon and a password, split at the first colon.
fn are_credentials(text: &str, user: &str, password: &str) -> (same: bool)
    ensures
        same == (!user@.contains(':') && text@ == user@ + ":"@ + password@),
{
    let chars = chars_of(text);
    let n = chars.len();
    let at = find_char(&chars, ':', 0);
    proof {
        reveal_strlit(":");
        assert(":"@ =~= seq![':']);
        next_char_is_first(text@, ':', 0);
        let wanted = user@ + ":"@ + password@;
        if !user@.contains(':') && text@ == wanted {
            assert(wanted[user@.len() as int] == ':');
            assert forall|i: int| 0 <= i < user@.len() implies text@[i] != ':' by {
                assert(text@[i] == user@[i]);
                assert(user@.contains(user@[i]));
            }
            assert(at == user@.len());
            assert(text@.subrange(0, at as int) =~= user@);
            assert(text@.subrange(at + 1, n as int) =~= password@);
        }
    }
    if at == n {
        return false;
    }
    let same = same_text(text.substring_char(0, at), user) && same_text(
        text.substring_char(at + 1, n),
        password,
    );
    proof {
        if same {
            assert(text@ =~= user@ + ":"@ + password@);
            assert(!user@.contains(':'));
        }
    }
    same
}

/// Whether the value of an `Authorization` header shows the expected user name and password.
pub fn check_basic_auth_header(header_value: Option<&str>, expected: &(String, String)) -> (
    authorized: bool)
    ensures
        authorized == shows_credentials(optional_str(header_value), expected.0@, expected.1@),
{
    let value = match header_value {
        Some(value) => value,
        None => return false,
    };
    let ghost wanted = expected.0@ + ":"@ + expected.1@;
    proof {
        reveal_strlit("Basic ");
        assert(basic_header(expected.0@, expected.1@).subrange(0, 6) =~= "Basic "@);
        assert(basic_header(expected.0@, expected.1@).len() >= 6);
    }
    let n = value.unicode_len();
    if n < 6 || !same_text(value.substring_char(0, 6), "Basic ") {
        return false;
    }
    let encoded = value.substring_char(6, n);
    proof {
        assert(value@ =~= "Basic "@ + encoded@);
        assert(basic_header(expected.0@, expected.1@).subrange(6, 6 + base64_text(
            encode_utf8(wanted),
        ).len() as int) =~= base64_text(encode_utf8(wanted)));
        if value@ == basic_header(expected.0@, expected.1@) {
            assert(encoded@ =~= base64_text(encode_utf8(wanted)));
        }
    }
    let bytes = match decode_base64(encoded) {
        Some(bytes) => bytes,
        None => return false,
    };
    let ghost shown = bytes@;
    proof {
        encode_utf8_valid_utf8(wanted);
        if encoded@ == base64_text(encode_utf8(wanted)) {
            base64_text_is_unique(shown, encode_utf8(wanted));
        }
    }
    let text = match text_of_utf8(bytes) {
        Some(text) => text,
        None => return false,
    };
    proof {
        encode_utf8_decode_utf8(text@);
        encode_utf8_decode_utf8(wanted);
    }
    are_credentials(text.as_str(), expected.0.as_str(), expected.1.as_str())
}

impl AuthConfig {
    /// Access is protected where both a user name and a password are configured.
    pub fn from_server(server: &ServerConfig) -> (auth: AuthConfig)
        ensures
            match auth.credentials {
                Some((user, password)) => optional_text(server.auth_username) == Some(user@)
                    && optional_text(server.auth_password) == Some(password@),
                None => server.auth_username is None || server.auth_password is None,
            },
    {
        let credentials = match (&server.auth_username, &server.auth_password) {
            (Some(user), Some(password)) => Some((user.clone(), password.clone())),
            _ => None,
        };
        AuthConfig { credentials }
    }
}

/// Lets a request pass, or refuses it with a challenge to log in. Without configured credentials
/// every request passes.
pub fn require_basic_auth(auth: &AuthConfig, header_value: Option<&str>) -> (decision:
    AuthDecision)
    ensures
        match decision {
            AuthDecision::Proceed => auth.credentials matches Some(expected)
                ==> shows_credentials(optional_str(header_value), expected.0@, expected.1@),
            AuthDecision::Refuse { status, www_authenticate } => {
                &&& auth.credentials matches Some(expected)
                &&& !shows_credentials(optional_str(header_value), expected.0@, expected.1@)
                &&& status == 401
                &&& www_authenticate@ == "Basic realm=\"sbalite\""@
            },
        },
{
    match &auth.credentials {
        None => AuthDecision::Proceed,
        Some(expected) => {
            if check_basic_auth_header(header_value, expected) {
                AuthDecision::Proceed
            } else {
                AuthDecision::Refuse {
                    status: 401,
                    www_authenticate: "Basic realm=\"sbalite\"".to_owned(),
                }
            }
        },
    }
}

/// The header of one user does not let another one in. The one exception: a user name with a
/// colon and its password may write the same text as other credentials do.
pub proof fn other_credentials_are_refused(
    user: Seq<char>,
    password: Seq<char>,
    other_user: Seq<char>,
    other_password: Seq<char>,
)
    requires
        user != other_user || password != other_password,
        !(other_user.contains(':') && other_user + ":"@ + other_password == user + ":"@
            + password),
    ensures
        !shows_credentials(Some(basic_header(other_user, other_password)), user, password),
{
    if shows_credentials(Some(basic_header(other_user, other_password)), user, password) {
        reveal_strlit("Basic ");
        reveal_strlit(":");
        assert(":"@ =~= seq![':']);
        let own = user + ":"@ + password;
        let other = other_user + ":"@ + other_password;
        assert(basic_header(user, password).skip(6) =~= base64_text(encode_utf8(own)));
        assert(basic_header(other_user, other_password).skip(6) =~= base64_text(
            encode_utf8(other),
        ));
        base64_text_is_unique(encode_utf8(own), encode_utf8(other));
        encode_utf8_decode_utf8(own);
        encode_utf8_decode_utf8(other);
        assert(own == other);
        assert(own[user.len() as int] == ':');
        assert(other[other_user.len() as int] == ':');
        if user.len() < other_user.len() {
            assert(other[user.len() as int] == other_user[user.len() as int]);
            assert(other_user.contains(':'));
        }
        if other_user.len() < user.len() {
            assert(own[other_user.len() as int] == user[other_user.len() as int]);
            assert(user.contains(':'));
        }
        assert(own.take(user.len() as int) =~= user);
        assert(other.take(user.len() as int) =~= other_user);
        assert(own.skip(user.len() as int + 1) =~= password);
        assert(other.skip(user.len() as int + 1) =~= other_password);
    }
}

/// The header that shows the configured credentials lets its user in, unless the user name holds
/// a colon.
pub proof fn own_credentials_are_accepted(user: Seq<char>, password: Seq<char>)
    requires
        !user.contains(':'),
    ensures
        shows_credentials(Some(basic_header(user, password)), user, password),
{
}

/// A header shows credentials exactly where it is the word `Basic`, a space, and the user name, a
/// colon and the password in base 64, and the user name has no colon. A missing header shows none.
pub proof fn header_is_the_credentials_in_base64(
    header: Option<Seq<char>>,
    user: Seq<char>,
    password: Seq<char>,
)
    ensures
        shows_credentials(header, user, password) <==> header is Some && !user.contains(':')
            && header->0 == "Basic "@ + base64_text(encode_utf8(user + ":"@ + password)),
        header is None ==> !shows_credentials(header, user, password),
{
}

} // verus!
