//! Dashboard credentials and webhook secrets.

use crate::http::codec::{
    base64_bytes, base64_decode, base64_encode, base64_text, sha256, sha256_digest, sha512,
    sha512_digest, utf8_string,
};
use crate::http::reply::{Reply, ReplyView};
use crate::text::{
    ascii_lowered, begins_with, chars_of, find_char, first_place, same_text,
    starts_with, strip_prefix, text_between, to_lower, trim, trimmed,
};
use vstd::prelude::*;
use vstd::utf8::{decode_utf8, encode_utf8, valid_utf8};

verus! {

/// Credentials are in force only when both a user name and a password are configured.
pub fn dashboard_auth(user: Option<String>, pass: Option<String>) -> (creds: Option<
    (String, String),
>)
    ensures
        match (user, pass) {
            (Some(user), Some(pass)) => if trimmed(user@).len() == 0 || pass@.len() == 0 {
                creds is None
            } else {
                creds == Some((user, pass))
            },
            _ => creds is None,
        },
{
    match (user, pass) {
        (Some(user), Some(pass)) => {
            let name = trim(user.as_str());
            if name.as_str().is_empty() || pass.as_str().is_empty() {
                None
            } else {
                Some((user, pass))
            }
        },
        _ => None,
    }
}

/// Whether a password is the configured one. A configured value that begins with `{SHA256}` or
/// `{SHA512}` is the digest of the password in base64; any other is the password itself.
pub open spec fn password_matches(input: Seq<char>, configured: Seq<char>) -> bool {
    if begins_with(configured, "{SHA256}"@) {
        base64_text(sha256_digest(encode_utf8(input))) == configured.skip(8)
    } else if begins_with(configured, "{SHA512}"@) {
        base64_text(sha512_digest(encode_utf8(input))) == configured.skip(8)
    } else {
        input == configured
    }
}

/// Verifies a password against the configured credential.
pub fn verify_password(input: &str, configured: &str) -> (verified: bool)
    ensures
        verified == password_matches(input@, configured@),
{
    proof {
        reveal_strlit("{SHA256}");
        reveal_strlit("{SHA512}");
    }
    if let Some(hash) = strip_prefix(configured, "{SHA256}") {
        let digest = sha256(input.as_bytes());
        return same_text(base64_encode(digest.as_slice()).as_str(), hash.as_str());
    }
    if let Some(hash) = strip_prefix(configured, "{SHA512}") {
        let digest = sha512(input.as_bytes());
        return same_text(base64_encode(digest.as_slice()).as_str(), hash.as_str());
    }
    same_text(input, configured)
}

/// What follows the scheme of a basic authorization.
pub open spec fn basic_payload(authorization: Seq<char>) -> Option<Seq<char>> {
    if begins_with(authorization, "Basic "@) || begins_with(authorization, "basic "@) {
        Some(authorization.skip(6))
    } else {
        None
    }
}

/// The text that a basic authorization carries: its payload, read as base64 and then as UTF-8.
pub open spec fn basic_text(authorization: Seq<char>) -> Option<Seq<char>> {
    match basic_payload(authorization) {
        Some(payload) => match base64_bytes(trimmed(payload)) {
            Some(bytes) => if valid_utf8(bytes) {
                Some(decode_utf8(bytes))
            } else {
                None
            },
            None => None,
        },
        None => None,
    }
}

/// Whether an authorization carries the configured user before the first colon of its text, and
/// the configured password after it.
pub open spec fn authorizes(authorization: Seq<char>, user: Seq<char>, configured: Seq<char>) -> bool {
    match basic_text(authorization) {
        Some(text) => {
            let colon = first_place(text, ':');
            colon < text.len() && text.take(colon) == user && password_matches(
                text.skip(colon + 1),
                configured,
            )
        },
        None => false,
    }
}

/// The position of the last header with a name, names being compared in lower case.
pub open spec fn last_header(headers: Seq<(String, String)>, name: Seq<char>) -> Option<int>
    decreases headers.len(),
{
    if headers.len() == 0 {
        None
    } else if ascii_lowered(headers.last().0@) == name {
        Some(headers.len() - 1)
    } else {
        last_header(headers.drop_last(), name)
    }
}

/// The value of the last header with a name.
fn header_value<'a>(headers: &'a [(String, String)], name: &str) -> (value: Option<&'a String>)
    ensures
        match last_header(headers@, name@) {
            Some(at) => value == Some(&headers@[at].1) && 0 <= at < headers@.len(),
            None => value is None,
        },
{
    let mut i: usize = headers.len();
    assert(headers@.take(headers@.len() as int) =~= headers@);
    while i > 0
        invariant
            i <= headers@.len(),
            last_header(headers@, name@) == last_header(headers@.take(i as int), name@),
        decreases i,
    {
        assert(headers@.take(i as int).drop_last() =~= headers@.take(i - 1));
        assert(headers@.take(i as int).last() == headers@[i - 1]);
        if same_text(to_lower(headers[i - 1].0.as_str()).as_str(), name) {
            return Some(&headers[i - 1].1);
        }
        i = i - 1;
    }
    None
}

/// Whether a request is authorized by its headers.
pub open spec fn request_authorized(
    headers: Seq<(String, String)>,
    creds: Option<(String, String)>,
) -> bool {
    match creds {
        None => true,
        Some(creds) => match last_header(headers, "authorization"@) {
            Some(at) => authorizes(headers[at].1@, creds.0@, creds.1@),
            None => false,
        },
    }
}

/// Verifies a basic authorization against configured credentials.
fn authorization_ok(authorization: &str, user: &str, configured: &str) -> (ok: bool)
    ensures
        ok == authorizes(authorization@, user@, configured@),
{
    proof {
        reveal_strlit("Basic ");
        reveal_strlit("basic ");
        reveal_strlit(":");
    }
    let payload = match strip_prefix(authorization, "Basic ") {
        Some(payload) => payload,
        None => match strip_prefix(authorization, "basic ") {
            Some(payload) => payload,
            None => {
                return false;
            },
        },
    };
    assert(basic_payload(authorization@) == Some(payload@));
    let bytes = match base64_decode(trim(payload.as_str()).as_str()) {
        Some(bytes) => bytes,
        None => {
            return false;
        },
    };
    let text = match utf8_string(bytes) {
        Some(text) => text,
        None => {
            return false;
        },
    };
    let chars = chars_of(text.as_str());
    let at = find_char(chars.as_slice(), 0, ':');
    assert(chars@.skip(0) =~= chars@);
    if at == chars.len() {
        return false;
    }
    let given_user = text_between(chars.as_slice(), 0, at);
    let given_pass = text_between(chars.as_slice(), at + 1, chars.len());
    assert(given_user@ =~= text@.take(at as int));
    assert(given_pass@ =~= text@.skip(at + 1));
    same_text(given_user.as_str(), user) && verify_password(given_pass.as_str(), configured)
}

/// Verifies the authorization of a request. With no credentials configured every request passes.
pub fn auth_ok(headers: &[(String, String)], creds: &Option<(String, String)>) -> (ok: bool)
    ensures
        ok == request_authorized(headers@, *creds),
{
    match creds {
        None => true,
        Some((user, pass)) => match header_value(headers, "authorization") {
            Some(authorization) => authorization_ok(
                authorization.as_str(),
                user.as_str(),
                pass.as_str(),
            ),
            None => false,
        },
    }
}

/// Whether a path is behind the credentials: the dashboard, the API and the log pages.
pub open spec fn guarded(path: Seq<char>) -> bool {
    path == "/"@ || begins_with(path, "/api/"@) || begins_with(path, "/logs/"@)
}

/// Whether a path is behind the credentials.
pub fn is_guarded(path: &str) -> (yes: bool)
    ensures
        yes == guarded(path@),
{
    same_text(path, "/") || starts_with(path, "/api/") || starts_with(path, "/logs/")
}

/// The reply to a request that is not authorized: a challenge.
pub open spec fn challenge() -> ReplyView {
    ReplyView::plain(401, encode_utf8("authentication required"@)).with(
        "www-authenticate"@,
        "Basic realm=\"oxmgr dashboard\""@,
    ).with("content-type"@, "text/plain; charset=utf-8"@)
}

/// The reply to a request that is not authorized.
pub fn unauthorized_response() -> (reply: Reply)
    ensures
        reply@ == challenge(),
{
    Reply::new(401, "authentication required".as_bytes_vec()).with(
        "www-authenticate",
        "Basic realm=\"oxmgr dashboard\"",
    ).with("content-type", "text/plain; charset=utf-8")
}

/// Decides whether a request goes through: `None` to let it, or the challenge to answer it with.
pub fn guard(path: &str, headers: &[(String, String)], creds: &Option<(String, String)>) -> (refusal:
    Option<Reply>)
    ensures
        match refusal {
            None => !guarded(path@) || request_authorized(headers@, *creds),
            Some(reply) => guarded(path@) && !request_authorized(headers@, *creds) && reply@
                == challenge(),
        },
{
    if is_guarded(path) && !auth_ok(headers, creds) {
        Some(unauthorized_response())
    } else {
        None
    }
}

/// A header of a request: absent, present but not text, or present as text.
#[derive(Debug, Clone, PartialEq, Eq)]
pub enum HeaderField {
    Absent,
    Opaque,
    Text(String),
}

/// The webhook secret that a request carries, if it carries one.
pub open spec fn secret_of(secret: HeaderField, authorization: HeaderField) -> Option<Seq<char>> {
    match secret {
        HeaderField::Text(text) => Some(trimmed(text@)),
        HeaderField::Opaque => None,
        HeaderField::Absent => match authorization {
            HeaderField::Text(text) => if begins_with(text@, "Bearer "@) {
                Some(trimmed(text@.skip("Bearer "@.len() as int)))
            } else {
                None
            },
            _ => None,
        },
    }
}

/// Extracts the webhook secret of a request: the dedicated header where it is present, otherwise a
/// bearer authorization.
pub fn extract_api_secret(secret: &HeaderField, authorization: &HeaderField) -> (found: Option<
    String,
>)
    ensures
        match secret_of(*secret, *authorization) {
            Some(text) => found matches Some(value) && value@ == text,
            None => found is None,
        },
{
    match secret {
        HeaderField::Text(text) => Some(trim(text.as_str())),
        HeaderField::Opaque => None,
        HeaderField::Absent => match authorization {
            HeaderField::Text(text) => match strip_prefix(text.as_str(), "Bearer ") {
                Some(rest) => Some(trim(rest.as_str())),
                None => None,
            },
            _ => None,
        },
    }
}

/// A password is accepted against itself, and against the digest that was made of it, and a value
/// that is no digest accepts nothing but itself.
pub proof fn a_password_is_accepted_against_what_was_made_of_it(
    password: Seq<char>,
    other: Seq<char>,
)
    ensures
        password_matches(
            password,
            "{SHA256}"@ + base64_text(sha256_digest(encode_utf8(password))),
        ),
        password_matches(
            password,
            "{SHA512}"@ + base64_text(sha512_digest(encode_utf8(password))),
        ),
        password_matches(
            other,
            "{SHA256}"@ + base64_text(sha256_digest(encode_utf8(password))),
        ) ==> base64_text(sha256_digest(encode_utf8(other))) == base64_text(
            sha256_digest(encode_utf8(password)),
        ),
        password.len() > 0 && password[0] != '{' ==> (password_matches(other, password) <==> other
            == password),
{
    reveal_strlit("{SHA256}");
    reveal_strlit("{SHA512}");
    let short = "{SHA256}"@ + base64_text(sha256_digest(encode_utf8(password)));
    let long = "{SHA512}"@ + base64_text(sha512_digest(encode_utf8(password)));
    assert(short.take(8) =~= "{SHA256}"@);
    assert(short.skip(8) =~= base64_text(sha256_digest(encode_utf8(password))));
    assert(long.take(8) =~= "{SHA512}"@);
    assert(long.skip(8) =~= base64_text(sha512_digest(encode_utf8(password))));
    assert("{SHA256}"@[4] == '2' && "{SHA512}"@[4] == '5');
    assert("{SHA256}"@[0] == '{' && "{SHA512}"@[0] == '{');
    if password.len() > 0 && password[0] != '{' {
        if begins_with(password, "{SHA256}"@) {
            assert(password.take(8)[0] == password[0]);
        }
        if begins_with(password, "{SHA512}"@) {
            assert(password.take(8)[0] == password[0]);
        }
    }
}

/// What a basic authorization says is split at its first colon: the user before it, who has to be
/// the configured one, and the password behind it, further colons included.
pub proof fn credentials_are_split_at_the_first_colon(
    authorization: Seq<char>,
    user: Seq<char>,
    password: Seq<char>,
    configured_user: Seq<char>,
    configured: Seq<char>,
)
    requires
        basic_text(authorization) == Some(user + seq![':'] + password),
        !user.contains(':'),
    ensures
        authorizes(authorization, configured_user, configured) <==> user == configured_user
            && password_matches(password, configured),
{
    let text = user + seq![':'] + password;
    crate::text::lemma_first_place(text, ':');
    let at = first_place(text, ':');
    assert(text[user.len() as int] == ':');
    assert(text.contains(':'));
    if at < user.len() {
        assert(user[at] == text[at]);
        assert(user.contains(':'));
    }
    assert(at == user.len());
    assert(text.take(at) =~= user);
    assert(text.skip(at + 1) =~= password);
}

/// An authorization is read as basic under either spelling of the scheme and under no other, and
/// one without a colon, or that is not readable, authorizes nobody.
pub proof fn only_basic_authorizations_are_read(
    authorization: Seq<char>,
    payload: Seq<char>,
    user: Seq<char>,
    configured: Seq<char>,
)
    ensures
        authorization == "Basic "@ + payload || authorization == "basic "@ + payload
            ==> basic_payload(authorization) == Some(payload),
        authorization.len() > 0 && authorization[0] != 'B' && authorization[0] != 'b' ==> !authorizes(
            authorization,
            user,
            configured,
        ),
        basic_text(authorization) is None ==> !authorizes(authorization, user, configured),
        basic_text(authorization) matches Some(text) ==> (!text.contains(':') ==> !authorizes(
            authorization,
            user,
            configured,
        )),
{
    reveal_strlit("Basic ");
    reveal_strlit("basic ");
    let capital = "Basic "@ + payload;
    let small = "basic "@ + payload;
    assert(capital.take(6) =~= "Basic "@);
    assert(small.take(6) =~= "basic "@);
    assert(capital.skip(6) =~= payload);
    assert(small.skip(6) =~= payload);
    if authorization.len() > 0 && authorization[0] != 'B' && authorization[0] != 'b' {
        if begins_with(authorization, "Basic "@) {
            assert(authorization.take(6)[0] == 'B');
        }
        if begins_with(authorization, "basic "@) {
            assert(authorization.take(6)[0] == 'b');
        }
    }
    if let Some(text) = basic_text(authorization) {
        crate::text::lemma_first_place(text, ':');
    }
}

/// Without credentials every request passes; with them one without an authorization never does,
/// and of several headers the last decides, whatever the case of its name.
pub proof fn the_last_authorization_decides(
    headers: Seq<(String, String)>,
    header: (String, String),
    creds: (String, String),
)
    ensures
        request_authorized(headers, None),
        (forall|i: int|
            0 <= i < headers.len() ==> ascii_lowered((#[trigger] headers[i]).0@)
                != "authorization"@) ==> !request_authorized(headers, Some(creds)),
        ascii_lowered(header.0@) == "authorization"@ ==> request_authorized(
            headers.push(header),
            Some(creds),
        ) == authorizes(header.1@, creds.0@, creds.1@),
        ascii_lowered(header.0@) != "authorization"@ ==> request_authorized(
            headers.push(header),
            Some(creds),
        ) == request_authorized(headers, Some(creds)),
{
    assert(headers.push(header).drop_last() =~= headers);
    assert(headers.push(header).last() == header);
    lemma_last_header(headers, "authorization"@);
    if let Some(at) = last_header(headers, "authorization"@) {
        assert(headers.push(header)[at] == headers[at]);
    }
}

proof fn lemma_last_header(headers: Seq<(String, String)>, name: Seq<char>)
    ensures
        match last_header(headers, name) {
            Some(at) => 0 <= at < headers.len() && ascii_lowered(headers[at].0@) == name,
            None => true,
        },
    decreases headers.len(),
{
    if headers.len() > 0 {
        lemma_last_header(headers.drop_last(), name);
    }
}

/// The dashboard, the API and the log pages are behind the credentials; metrics, webhooks and the
/// files of the dashboard are not.
pub proof fn only_what_shows_or_acts_is_guarded(path: Seq<char>, rest: Seq<char>)
    ensures
        guarded("/"@),
        path == "/api/"@ + rest ==> guarded(path),
        path == "/logs/"@ + rest ==> guarded(path),
        path == "/metrics"@ + rest ==> !guarded(path),
        path == "/pull/"@ + rest ==> !guarded(path),
        path.len() > 1 && path[1] != 'a' && path[1] != 'l' ==> !guarded(path),
{
    reveal_strlit("/");
    reveal_strlit("/api/");
    reveal_strlit("/logs/");
    reveal_strlit("/metrics");
    reveal_strlit("/pull/");
    let api = "/api/"@ + rest;
    let logs = "/logs/"@ + rest;
    assert(api.take(5) =~= "/api/"@);
    assert(logs.take(6) =~= "/logs/"@);
    let metrics = "/metrics"@ + rest;
    let pull = "/pull/"@ + rest;
    assert(metrics[1] == 'm');
    assert(pull[1] == 'p');
    if path.len() > 1 {
        if begins_with(path, "/api/"@) {
            assert(path.take(5)[1] == path[1]);
        }
        if begins_with(path, "/logs/"@) {
            assert(path.take(6)[1] == path[1]);
        }
    }
}

/// The dedicated header is the secret wherever it is sent, and a bearer authorization only where
/// it is not: a dedicated header that is no text leaves no secret.
pub proof fn the_dedicated_header_comes_first(
    secret: HeaderField,
    authorization: HeaderField,
    token: Seq<char>,
)
    ensures
        secret matches HeaderField::Text(text) ==> secret_of(secret, authorization) == Some(
            trimmed(text@),
        ),
        secret is Opaque ==> secret_of(secret, authorization) is None,
        secret is Absent && !(authorization is Text) ==> secret_of(secret, authorization) is None,
        secret is Absent ==> (authorization matches HeaderField::Text(text) ==> (text@
            == "Bearer "@ + token ==> secret_of(secret, authorization) == Some(trimmed(token)))),
        secret is Absent ==> (authorization matches HeaderField::Text(text) ==> (text@.len() > 0
            && text@[0] != 'B' ==> secret_of(secret, authorization) is None)),
{
    reveal_strlit("Bearer ");
    let bearer = "Bearer "@ + token;
    assert(bearer.take(7) =~= "Bearer "@);
    assert(bearer.skip(7) =~= token);
    if let HeaderField::Text(text) = authorization {
        if text@.len() > 0 && begins_with(text@, "Bearer "@) {
            assert(text@.take(7)[0] == text@[0]);
        }
    }
}

/// The challenge is an unauthorized reply that names the scheme and the realm.
pub proof fn a_challenge_names_its_scheme()
    ensures
        challenge().status == 401,
        challenge().headers.contains(
            ("www-authenticate"@, "Basic realm=\"oxmgr dashboard\""@),
        ),
        challenge().body == encode_utf8("authentication required"@),
{
    assert(challenge().headers[0] == (
        "www-authenticate"@,
        "Basic realm=\"oxmgr dashboard\""@,
    ));
}

/// Credentials are in force when both parts are there, the name not blank and the password not
/// empty, and then as they were configured.
pub proof fn credentials_take_both_parts(
    user: Option<String>,
    pass: Option<String>,
    creds: Option<(String, String)>,
)
    requires
        call_ensures(dashboard_auth, (user, pass), creds),
    ensures
        creds is Some ==> user is Some && pass is Some && creds->0 == (user->0, pass->0),
        creds is Some <==> user is Some && pass is Some && trimmed((user->0)@).len() > 0 && (
        pass->0)@.len() > 0,
{
}

/// A request is refused exactly when its path is guarded and it is not authorized, and then with
/// the challenge.
pub proof fn only_unauthorized_requests_are_challenged(
    path: &str,
    headers: &[(String, String)],
    creds: &Option<(String, String)>,
    refusal: Option<Reply>,
    ok: bool,
)
    requires
        call_ensures(guard, (path, headers, creds), refusal),
        call_ensures(auth_ok, (headers, creds), ok),
    ensures
        refusal is Some <==> guarded(path@) && !ok,
        refusal matches Some(reply) ==> reply.status == 401,
        creds is None ==> refusal is None && ok,
{
}

/// Whoever sends the configured user and the right password, joined by a colon and encoded, is let
/// in, and nobody else is: what cannot be decoded, or is no text, authorizes nobody.
pub proof fn sent_credentials_are_read_back(
    payload: Seq<char>,
    user: Seq<char>,
    password: Seq<char>,
    configured_user: Seq<char>,
    configured: Seq<char>,
)
    requires
        !user.contains(':'),
    ensures
        base64_bytes(trimmed(payload)) == Some(encode_utf8(user + seq![':'] + password)) ==> (
        authorizes("Basic "@ + payload, configured_user, configured) <==> user == configured_user
            && password_matches(password, configured)),
        base64_bytes(trimmed(payload)) is None ==> !authorizes(
            "Basic "@ + payload,
            configured_user,
            configured,
        ),
        base64_bytes(trimmed(payload)) matches Some(bytes) ==> (!valid_utf8(bytes) ==> !authorizes(
            "Basic "@ + payload,
            configured_user,
            configured,
        )),
{
    let authorization = "Basic "@ + payload;
    let text = user + seq![':'] + password;
    only_basic_authorizations_are_read(authorization, payload, configured_user, configured);
    if base64_bytes(trimmed(payload)) == Some(encode_utf8(text)) {
        vstd::utf8::encode_utf8_decode_utf8(text);
        vstd::utf8::encode_utf8_valid_utf8(text);
        assert(basic_text(authorization) == Some(text));
        credentials_are_split_at_the_first_colon(
            authorization,
            user,
            password,
            configured_user,
            configured,
        );
    }
}

} // verus!
