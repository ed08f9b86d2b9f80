//! Whether a base station may open one of its WebSocket channels: the
//! subprotocol that it must offer, and optional HTTP Basic authentication.
//!
//! Header values come as the bytes of the header, or as nothing where the
//! request has no such header.
use crate::text::{
    begins_with, chars_of, same_text, starts_with, string_of, trim, trimmed, utf8_text,
};
use crate::text_map::TextMap;
use base64::Engine;
use vstd::prelude::*;
use vstd::utf8::{decode_utf8, encode_utf8, valid_utf8};

verus! {

/// Who opened a connection: the user name, or nothing where no users are
/// configured.
pub type Identity = Option<String>;

/// The HTTP status of a request that lacks valid credentials.
pub const UNAUTHORIZED: u16 = 401;

/// A byte that a header value may have in order to be read as text: a visible
/// ASCII character, a space or a tab.
pub open spec fn header_character(b: u8) -> bool {
    32 <= b < 127 || b == 9
}

/// A header value as text, where it is text.
pub open spec fn header_string(value: Seq<u8>) -> Option<Seq<char>> {
    if forall|i: int| 0 <= i < value.len() ==> header_character(#[trigger] value[i]) {
        Some(value.map_values(|b: u8| b as char))
    } else {
        None
    }
}

/// `to_str` of `axum::http::HeaderValue`, for the value with these bytes: its
/// characters, one for each byte, where all are visible ASCII characters,
/// spaces or tabs, and nothing otherwise.
#[verifier::external_body]
pub(crate) fn header_text(value: &[u8]) -> (r: Option<String>)
    ensures
        match r {
            Some(s) => header_string(value@) == Some(s@),
            None => header_string(value@) is None,
        },
{
    let header = axum::http::HeaderValue::from_bytes(value).ok()?;
    header.to_str().ok().map(|s| s.to_owned())
}

/// The bytes that a text stands for in padded standard Base64.
pub uninterp spec fn base64_decoded(text: Seq<char>) -> Option<Seq<u8>>;

/// `base64::Engine::decode` with `base64::engine::general_purpose::STANDARD`:
/// the bytes that the text stands for, or nothing where it is not Base64. What
/// they are is named here and not described.
#[verifier::external_body]
pub(crate) fn base64_decode(text: &str) -> (r: Option<Vec<u8>>)
    ensures
        match r {
            Some(bytes) => base64_decoded(text@) == Some(bytes@),
            None => base64_decoded(text@) is None,
        },
{
    base64::engine::general_purpose::STANDARD.decode(text).ok()
}

/// The characters from `from` up to `to` are one item of a list with commas.
pub open spec fn list_item(s: Seq<char>, from: int, to: int) -> bool {
    &&& 0 <= from <= to <= s.len()
    &&& from == 0 || s[from - 1] == ','
    &&& to == s.len() || s[to] == ','
    &&& forall|i: int| from <= i < to ==> s[i] != ','
}

/// `item` is in a list with commas, white space round the items aside.
pub open spec fn list_has(s: Seq<char>, item: Seq<char>) -> bool {
    exists|from: int, to: int| #[trigger]
        list_item(s, from, to) && trimmed(s.subrange(from, to)) == item
}

/// The header offers the subprotocol.
pub open spec fn offered(header: Option<Seq<u8>>, subprotocol: Seq<char>) -> bool {
    match header {
        Some(value) => match header_string(value) {
            Some(text) => list_has(text, subprotocol),
            None => false,
        },
        None => false,
    }
}

/// A header value as mathematical values.
pub open spec fn header_view(header: Option<&[u8]>) -> Option<Seq<u8>> {
    match header {
        Some(value) => Some(value@),
        None => None,
    }
}

/// Tells whether an item is in a list with commas.
fn list_contains(list: &str, item: &str) -> (r: bool)
    ensures
        r == list_has(list@, item@),
{
    let chars = chars_of(list);
    let n = chars.len();
    let mut from: usize = 0;
    let mut i: usize = 0;
    while i < n
        invariant
            0 <= from <= i <= n == chars@.len(),
            chars@ == list@,
            from == 0 || list@[from - 1] == ',',
            forall|k: int| from <= k < i ==> list@[k] != ',',
            forall|a: int, b: int| #[trigger]
                list_item(list@, a, b) && a < from ==> trimmed(list@.subrange(a, b)) != item@,
        decreases n - i,
    {
        if chars[i] == ',' {
            let piece = trim(string_of(&chars, from, i).as_str());
            if same_text(piece.as_str(), item) {
                assert(list_item(list@, from as int, i as int));
                return true;
            }
            proof {
                assert forall|a: int, b: int| #[trigger]
                    list_item(list@, a, b) && a < i + 1 implies trimmed(list@.subrange(a, b))
                    != item@ by {
                    if a >= from {
                        assert(a == from) by {
                            if a > from {
                                assert(list@[a - 1] == ',');
                            }
                        }
                        assert(b == i) by {
                            if b < i {
                                assert(list@[b] == ',');
                            }
                            if b > i {
                                assert(list@[i as int] != ',');
                            }
                        }
                    }
                }
            }
            from = i + 1;
        }
        i += 1;
    }
    let piece = trim(string_of(&chars, from, n).as_str());
    let r = same_text(piece.as_str(), item);
    proof {
        assert(list_item(list@, from as int, n as int));
        if list_has(list@, item@) {
            let (a, b) = choose|a: int, b: int| #[trigger]
                list_item(list@, a, b) && trimmed(list@.subrange(a, b)) == item@;
            assert(a == from) by {
                if a > from {
                    assert(list@[a - 1] == ',');
                }
            }
            assert(b == n) by {
                if b < n {
                    assert(list@[b] == ',');
                }
            }
        }
    }
    r
}

/// Tells whether the `Sec-WebSocket-Protocol` header offers a subprotocol.
pub fn offers_subprotocol(header: Option<&[u8]>, subprotocol: &str) -> (r: bool)
    ensures
        r == offered(header_view(header), subprotocol@),
{
    match header {
        Some(value) => match header_text(value) {
            Some(text) => list_contains(text.as_str(), subprotocol),
            None => false,
        },
        None => false,
    }
}

/// The place of the first colon, or the length where there is none.
pub open spec fn first_colon(s: Seq<char>) -> nat
    decreases s.len(),
{
    if s.len() == 0 || s.first() == ':' {
        0
    } else {
        1 + first_colon(s.drop_first())
    }
}

/// The user whom the text `name:password` names, where it is that of a user
/// with this password. The name ends at the first colon.
pub open spec fn named_user(users: Map<Seq<char>, String>, text: Seq<char>) -> Option<Seq<char>> {
    let i = first_colon(text) as int;
    if i < text.len() && users.contains_key(text.take(i)) && users[text.take(i)]@ == text.skip(
        i + 1,
    ) {
        Some(text.take(i))
    } else {
        None
    }
}

/// The user whom decoded credentials name.
pub open spec fn credentials_user(
    users: Map<Seq<char>, String>,
    decoded: Seq<u8>,
) -> Option<Seq<char>> {
    if valid_utf8(decoded) {
        named_user(users, decode_utf8(decoded))
    } else {
        None
    }
}

/// The user whom the `Authorization` header names.
pub open spec fn authorized_user(
    users: Map<Seq<char>, String>,
    header: Option<Seq<u8>>,
) -> Option<Seq<char>> {
    match header {
        Some(value) => match header_string(value) {
            Some(text) if begins_with(text, "Basic "@) => match base64_decoded(text.skip(6)) {
                Some(decoded) => credentials_user(users, decoded),
                None => None,
            },
            _ => None,
        },
        None => None,
    }
}

/// Who a request comes from. Where there are no users, it may come from
/// anyone.
pub open spec fn basic_identity(
    users: Map<Seq<char>, String>,
    header: Option<Seq<u8>>,
) -> Result<Option<Seq<char>>, ()> {
    if users == Map::<Seq<char>, String>::empty() {
        Ok(None)
    } else {
        match authorized_user(users, header) {
            Some(user) => Ok(Some(user)),
            None => Err(()),
        }
    }
}

/// An identity as mathematical values.
pub open spec fn identity_view(r: Result<Identity, ()>) -> Result<Option<Seq<char>>, ()> {
    match r {
        Ok(Some(user)) => Ok(Some(user@)),
        Ok(None) => Ok(None),
        Err(()) => Err(()),
    }
}

/// Finds the user whom decoded credentials name.
pub fn check_credentials(users: &TextMap<String>, decoded: &[u8]) -> (r: Option<String>)
    ensures
        match r {
            Some(user) => credentials_user(users@, decoded@) == Some(user@),
            None => credentials_user(users@, decoded@) is None,
        },
{
    let text = match utf8_text(decoded) {
        Some(text) => text,
        None => {
            return None;
        },
    };
    let chars = chars_of(text.as_str());
    let n = chars.len();
    let mut i: usize = 0;
    assert(chars@.skip(0) == chars@);
    while i < n && chars[i] != ':'
        invariant
            0 <= i <= n == chars@.len(),
            first_colon(chars@) == i + first_colon(chars@.skip(i as int)),
        decreases n - i,
    {
        assert(chars@.skip(i as int).drop_first() == chars@.skip(i + 1));
        i += 1;
    }
    if i == n {
        return None;
    }
    let user = string_of(&chars, 0, i);
    let pass = string_of(&chars, i + 1, n);
    assert(user@ == text@.take(i as int));
    assert(pass@ == text@.skip(i + 1));
    match users.get(user.as_str()) {
        Some(expected) => {
            if same_text(expected.as_str(), pass.as_str()) {
                Some(user)
            } else {
                None
            }
        },
        None => None,
    }
}

/// Verifies the `Authorization` header against the users, names mapped to
/// passwords.
pub fn verify_basic(users: &TextMap<String>, header: Option<&[u8]>) -> (r: Result<Identity, ()>)
    ensures
        identity_view(r) == basic_identity(users@, header_view(header)),
{
    if users.is_empty() {
        return Ok(None);
    }
    let text = match header {
        Some(value) => match header_text(value) {
            Some(text) => text,
            None => {
                return Err(());
            },
        },
        None => {
            return Err(());
        },
    };
    if !starts_with(text.as_str(), "Basic ") {
        return Err(());
    }
    let chars = chars_of(text.as_str());
    proof {
        reveal_strlit("Basic ");
    }
    let encoded = string_of(&chars, 6, chars.len());
    assert(encoded@ == text@.skip(6));
    match base64_decode(encoded.as_str()) {
        Some(decoded) => match check_credentials(users, decoded.as_slice()) {
            Some(user) => Ok(Some(user)),
            None => Err(()),
        },
        None => Err(()),
    }
}

/// The answer to a request without valid credentials: the status, and the
/// value of the `WWW-Authenticate` header.
#[derive(Debug)]
pub struct Challenge {
    pub status: u16,
    pub www_authenticate: String,
}

/// The text can stand in a header value.
pub open spec fn fits_header(s: Seq<char>) -> bool {
    forall|i: int|
        0 <= i < s.len() ==> (#[trigger] s[i] >= ' ' && s[i] != '\u{7f}') || s[i] == '\t'
}

/// The value of the `WWW-Authenticate` header for a realm.
pub open spec fn challenge_text(realm: Seq<char>) -> Seq<char> {
    "Basic realm=\""@ + realm + "\""@
}

/// Tells whether a text can stand in a header value.
fn can_stand_in_header(s: &str) -> (r: bool)
    ensures
        r == fits_header(s@),
{
    let chars = chars_of(s);
    let n = chars.len();
    let mut i: usize = 0;
    while i < n
        invariant
            0 <= i <= n == chars@.len(),
            chars@ == s@,
            forall|k: int|
                0 <= k < i ==> (#[trigger] s@[k] >= ' ' && s@[k] != '\u{7f}') || s@[k] == '\t',
        decreases n - i,
    {
        let c = chars[i];
        if (c < ' ' || c == '\u{7f}') && c != '\t' {
            assert(s@[i as int] == c);
            return false;
        }
        i += 1;
    }
    true
}

/// Asks for credentials for a realm.
pub fn basic_challenge(realm: &str) -> (r: Challenge)
    requires
        fits_header(realm@),
    ensures
        r.status == UNAUTHORIZED,
        r.www_authenticate@ == challenge_text(realm@),
        fits_header(r.www_authenticate@),
{
    let mut text = "Basic realm=\"".to_owned();
    text.append(realm);
    text.append("\"");
    proof {
        reveal_strlit("Basic realm=\"");
        reveal_strlit("\"");
    }
    Challenge { status: UNAUTHORIZED, www_authenticate: text }
}

/// Decides on a request to open a channel: who opens it, or how the request
/// is answered instead. The realm of the challenge is the subprotocol.
pub fn upgrade(users: &TextMap<String>, subprotocol: &str, authorization: Option<&[u8]>) -> (r:
    Result<Identity, Challenge>)
    requires
        basic_identity(users@, header_view(authorization)) is Err ==> fits_header(subprotocol@),
    ensures
        match basic_identity(users@, header_view(authorization)) {
            Ok(Some(user)) => r matches Ok(Some(name)) && name@ == user,
            Ok(None) => r matches Ok(None),
            Err(()) => r matches Err(c) && c.status == UNAUTHORIZED && c.www_authenticate@
                == challenge_text(subprotocol@),
        },
{
    match verify_basic(users, authorization) {
        Ok(identity) => Ok(identity),
        Err(()) => Err(basic_challenge(subprotocol)),
    }
}

/// Decides on a request to open a channel as `upgrade` does, or gives nothing
/// where the request is refused and its subprotocol cannot stand in the
/// challenge.
pub fn try_upgrade(users: &TextMap<String>, subprotocol: &str, authorization: Option<&[u8]>) -> (r:
    Option<Result<Identity, Challenge>>)
    ensures
        match basic_identity(users@, header_view(authorization)) {
            Ok(Some(user)) => r matches Some(Ok(Some(name))) && name@ == user,
            Ok(None) => r matches Some(Ok(None)),
            Err(()) => if fits_header(subprotocol@) {
                r matches Some(Err(c)) && c.status == UNAUTHORIZED && c.www_authenticate@
                    == challenge_text(subprotocol@)
            } else {
                r is None
            },
        },
{
    if verify_basic(users, authorization).is_err() && !can_stand_in_header(subprotocol) {
        return None;
    }
    Some(upgrade(users, subprotocol, authorization))
}

/// How a request that was let in ends, once the WebSocket handshake was tried.
#[derive(Debug)]
pub enum Handshake {
    /// The answer echoes this subprotocol, and the socket is served for this
    /// identity.
    Serve { subprotocol: String, identity: Identity },
    /// The request is answered with what was wrong with it, and nobody is
    /// served.
    Reject,
}

/// Decides how a request that was let in ends, by whether it is a valid
/// WebSocket handshake.
pub fn finish_upgrade(subprotocol: &str, identity: Identity, valid: bool) -> (r: Handshake)
    ensures
        valid ==> (r matches Handshake::Serve { subprotocol: echoed, identity: served } && echoed@
            == subprotocol@ && served == identity),
        !valid ==> r is Reject,
{
    if valid {
        Handshake::Serve { subprotocol: subprotocol.to_owned(), identity }
    } else {
        Handshake::Reject
    }
}

/// Where there are no users, every request is let in, with no name.
pub proof fn law_open_without_users(header: Option<Seq<u8>>)
    ensures
        basic_identity(Map::<Seq<char>, String>::empty(), header) == Ok::<Option<Seq<char>>, ()>(
            None,
        ),
{
}

/// Where there are users, whoever is let in has the name of one of them.
pub proof fn law_identity_is_a_user(users: Map<Seq<char>, String>, header: Option<Seq<u8>>)
    requires
        users != Map::<Seq<char>, String>::empty(),
        basic_identity(users, header) is Ok,
    ensures
        basic_identity(users, header)->Ok_0 matches Some(user) && users.contains_key(user),
{
}

/// The first colon is where the name ends.
proof fn lemma_first_colon(name: Seq<char>, rest: Seq<char>)
    requires
        !name.contains(':'),
    ensures
        first_colon(name + seq![':'] + rest) == name.len(),
    decreases name.len(),
{
    let text = name + seq![':'] + rest;
    if name.len() > 0 {
        assert(name[0] != ':');
        assert forall|i: int| 0 <= i < name.drop_first().len() implies name.drop_first()[i]
            != ':' by {
            assert(name[i + 1] != ':');
        }
        lemma_first_colon(name.drop_first(), rest);
        assert(text.drop_first() =~= name.drop_first() + seq![':'] + rest);
    }
}

/// A user with the right password is let in under their name, whatever
/// characters the password has, as long as the name has no colon.
pub proof fn law_right_password_admits(
    users: Map<Seq<char>, String>,
    header: Seq<u8>,
    user: Seq<char>,
)
    requires
        users.contains_key(user),
        !user.contains(':'),
        header_string(header) is Some,
        begins_with(header_string(header)->0, "Basic "@),
        base64_decoded(header_string(header)->0.skip(6)) == Some(
            encode_utf8(user + seq![':'] + users[user]@),
        ),
    ensures
        basic_identity(users, Some(header)) == Ok::<Option<Seq<char>>, ()>(Some(user)),
{
    let text = user + seq![':'] + users[user]@;
    vstd::utf8::encode_utf8_valid_utf8(text);
    vstd::utf8::encode_utf8_decode_utf8(text);
    lemma_first_colon(user, users[user]@);
    assert(text.take(user.len() as int) =~= user);
    assert(text.skip(user.len() as int + 1) =~= users[user]@);
    assert(users.contains_key(user));
}

/// A user with a wrong password, or a name that no user has, is refused.
pub proof fn law_wrong_password_refused(
    users: Map<Seq<char>, String>,
    header: Seq<u8>,
    user: Seq<char>,
    password: Seq<char>,
)
    requires
        users != Map::<Seq<char>, String>::empty(),
        !users.contains_key(user) || users[user]@ != password,
        !user.contains(':'),
        header_string(header) is Some,
        begins_with(header_string(header)->0, "Basic "@),
        base64_decoded(header_string(header)->0.skip(6)) == Some(
            encode_utf8(user + seq![':'] + password),
        ),
    ensures
        basic_identity(users, Some(header)) is Err,
{
    let text = user + seq![':'] + password;
    vstd::utf8::encode_utf8_valid_utf8(text);
    vstd::utf8::encode_utf8_decode_utf8(text);
    lemma_first_colon(user, password);
    assert(text.take(user.len() as int) =~= user);
    assert(text.skip(user.len() as int + 1) =~= password);
}

/// A list without a comma has one item, the whole text but for the white space
/// at its ends.
pub proof fn law_single_item(s: Seq<char>, item: Seq<char>)
    requires
        !s.contains(','),
    ensures
        list_has(s, item) <==> trimmed(s) == item,
{
    let n = s.len() as int;
    assert(s.subrange(0, n) =~= s);
    assert forall|i: int| 0 <= i < n implies s[i] != ',' by {
        assert(s.contains(s[i]));
    }
    assert(list_item(s, 0, n));
    if list_has(s, item) {
        let (a, b) = choose|a: int, b: int| #[trigger]
            list_item(s, a, b) && trimmed(s.subrange(a, b)) == item;
        assert(a == 0) by {
            if a > 0 {
                assert(s[a - 1] == ',');
            }
        }
        assert(b == n) by {
            if b < n {
                assert(s[b] == ',');
            }
        }
    }
}

/// Two lists with a comma between them have the items of both, and no others.
pub proof fn law_joined_lists(left: Seq<char>, right: Seq<char>, item: Seq<char>)
    ensures
        list_has(left + seq![','] + right, item) <==> list_has(left, item) || list_has(right, item),
{
    let s = left + seq![','] + right;
    let m = left.len() as int;
    assert(s[m] == ',');
    if list_has(left, item) {
        let (a, b) = choose|a: int, b: int| #[trigger]
            list_item(left, a, b) && trimmed(left.subrange(a, b)) == item;
        assert(s.subrange(a, b) =~= left.subrange(a, b));
        assert forall|i: int| a <= i < b implies s[i] != ',' by {
            assert(left[i] != ',');
        }
        assert(list_item(s, a, b));
    }
    if list_has(right, item) {
        let (a, b) = choose|a: int, b: int| #[trigger]
            list_item(right, a, b) && trimmed(right.subrange(a, b)) == item;
        let k = m + 1;
        assert(s.subrange(a + k, b + k) =~= right.subrange(a, b));
        assert forall|i: int| a + k <= i < b + k implies s[i] != ',' by {
            assert(right[i - k] != ',');
        }
        assert(list_item(s, a + k, b + k));
    }
    if list_has(s, item) {
        let (a, b) = choose|a: int, b: int| #[trigger]
            list_item(s, a, b) && trimmed(s.subrange(a, b)) == item;
        if a <= m {
            assert(b <= m) by {
                if b > m {
                    assert(s[m] != ',');
                }
            }
            assert(s.subrange(a, b) =~= left.subrange(a, b));
            assert forall|i: int| a <= i < b implies left[i] != ',' by {
                assert(s[i] != ',');
            }
            assert(list_item(left, a, b));
        } else {
            let k = m + 1;
            assert(s.subrange(a, b) =~= right.subrange(a - k, b - k));
            assert forall|i: int| a - k <= i < b - k implies right[i] != ',' by {
                assert(s[i + k] != ',');
            }
            assert(list_item(right, a - k, b - k));
        }
    }
}

/// A subprotocol is offered exactly where the header is there, is text, and
/// has it among its items.
pub proof fn law_offered(header: Option<Seq<u8>>, subprotocol: Seq<char>)
    ensures
        offered(header, subprotocol) <==> header is Some && header_string(header->0) is Some
            && list_has(header_string(header->0)->0, subprotocol),
{
}

/// Where there are users, a request is refused that has no credentials, or
/// none that can be read: no text, another scheme, no Base64, no UTF-8, or no
/// colon.
pub proof fn law_unreadable_credentials_refused(
    users: Map<Seq<char>, String>,
    header: Option<Seq<u8>>,
)
    requires
        users != Map::<Seq<char>, String>::empty(),
        ({
            ||| header is None
            ||| header_string(header->0) is None
            ||| !begins_with(header_string(header->0)->0, "Basic "@)
            ||| base64_decoded(header_string(header->0)->0.skip(6)) is None
            ||| !valid_utf8(base64_decoded(header_string(header->0)->0.skip(6))->0)
            ||| !decode_utf8(
                base64_decoded(header_string(header->0)->0.skip(6))->0,
            ).contains(':')
        }),
    ensures
        basic_identity(users, header) is Err,
{
    if header is Some && header_string(header->0) is Some {
        let encoded = header_string(header->0)->0.skip(6);
        if base64_decoded(encoded) is Some {
            let text = decode_utf8(base64_decoded(encoded)->0);
            lemma_colon_found(text);
        }
    }
}

/// The place of the first colon is that of a colon, where there is one.
proof fn lemma_colon_found(s: Seq<char>)
    ensures
        first_colon(s) <= s.len(),
        first_colon(s) < s.len() ==> s.contains(':'),
    decreases s.len(),
{
    if s.len() > 0 {
        if s.first() == ':' {
            assert(s[0] == ':');
        } else {
            let rest = s.drop_first();
            lemma_colon_found(rest);
            if first_colon(rest) < rest.len() {
                let i = choose|i: int| 0 <= i < rest.len() && rest[i] == ':';
                assert(s[i + 1] == ':');
            }
        }
    }
}

/// Whoever is let in gave a name and, behind the first colon, that name's own
/// password.
pub proof fn law_admitted_with_own_password(
    users: Map<Seq<char>, String>,
    header: Option<Seq<u8>>,
)
    requires
        users != Map::<Seq<char>, String>::empty(),
        basic_identity(users, header) is Ok,
    ensures
        ({
            let user = basic_identity(users, header)->Ok_0->0;
            &&& basic_identity(users, header)->Ok_0 is Some
            &&& header is Some
            &&& users.contains_key(user)
            &&& !user.contains(':')
            &&& base64_decoded(header_string(header->0)->0.skip(6)) is Some
            &&& decode_utf8(base64_decoded(header_string(header->0)->0.skip(6))->0) == user + seq![
                ':',
            ] + users[user]@
        }),
{
    let text = decode_utf8(base64_decoded(header_string(header->0)->0.skip(6))->0);
    let i = first_colon(text) as int;
    lemma_colon_place(text);
    assert(text =~= text.take(i) + seq![':'] + text.skip(i + 1));
}

/// What stands before the first colon holds none.
proof fn lemma_colon_place(s: Seq<char>)
    ensures
        first_colon(s) <= s.len(),
        first_colon(s) < s.len() ==> s[first_colon(s) as int] == ':',
        !s.take(first_colon(s) as int).contains(':'),
    decreases s.len(),
{
    if s.len() > 0 && s.first() != ':' {
        let rest = s.drop_first();
        lemma_colon_place(rest);
        let k = first_colon(s) as int;
        let front = s.take(k);
        let shorter = rest.take(k - 1);
        assert forall|i: int| 0 <= i < front.len() implies front[i] != ':' by {
            if i > 0 {
                assert(shorter[i - 1] == front[i]);
                assert(shorter.contains(shorter[i - 1]));
            }
        }
    }
}

/// One character can stand in a header unless it is a control character other
/// than the tab, and a text can where each of its parts can.
pub proof fn law_fits_header(c: char, left: Seq<char>, right: Seq<char>)
    ensures
        fits_header(Seq::<char>::empty()),
        fits_header(seq![c]) <==> c == '\t' || (c >= ' ' && c != '\u{7f}'),
        fits_header(left + right) <==> fits_header(left) && fits_header(right),
{
    assert(seq![c][0] == c);
    let s = left + right;
    if fits_header(s) {
        assert forall|i: int| 0 <= i < left.len() implies (#[trigger] left[i] >= ' ' && left[i]
            != '\u{7f}') || left[i] == '\t' by {
            assert(s[i] == left[i]);
        }
        assert forall|i: int| 0 <= i < right.len() implies (#[trigger] right[i] >= ' ' && right[i]
            != '\u{7f}') || right[i] == '\t' by {
            assert(s[left.len() + i] == right[i]);
        }
    }
}

/// A challenge names the scheme and, between quotation marks, the realm; its
/// status is that of a request without credentials.
pub proof fn law_challenge(realm: Seq<char>)
    ensures
        UNAUTHORIZED == 401,
        ({
            let text = challenge_text(realm);
            let n = text.len() as int;
            &&& text.len() == realm.len() + 14
            &&& text.take(13) == "Basic realm=\""@
            &&& text.subrange(13, n - 1) == realm
            &&& text[n - 1] == '"'
        }),
{
    reveal_strlit("Basic realm=\"");
    reveal_strlit("\"");
    let text = challenge_text(realm);
    assert(text.take(13) =~= "Basic realm=\""@);
    assert(text.subrange(13, text.len() - 1) =~= realm);
}

/// Identities and headers are shown as what they are.
pub proof fn law_identity_views(r: Result<Identity, ()>, header: Option<&[u8]>)
    ensures
        r is Ok <==> identity_view(r) is Ok,
        r matches Ok(None) ==> identity_view(r) == Ok::<Option<Seq<char>>, ()>(None),
        r matches Ok(Some(user)) ==> identity_view(r) == Ok::<Option<Seq<char>>, ()>(Some(user@)),
        header is None <==> header_view(header) is None,
        header matches Some(value) ==> header_view(header) == Some(value@),
{
}

} // verus!
