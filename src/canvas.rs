//! The client handle: the server's base URL and an HTTP client that sends the
//! API token with every request.
use vstd::prelude::*;

use vstd::string::StringSliceAdditionalSpecFns;
use vstd::utf8::encode_utf8;

use crate::error::CanvasError;
use crate::paginator::Paginator;

verus! {

/// The HTTP client, with its connection pool and default headers.
#[verifier::external_type_specification]
#[verifier::external_body]
pub struct ExClient(reqwest::Client);

/// A header value that passed the HTTP crate's check.
#[verifier::external_type_specification]
#[verifier::external_body]
pub struct ExHeaderValue(reqwest::header::HeaderValue);

/// A byte that the HTTP crate accepts in a header value: anything from a space
/// up, but DEL, and the tab.
pub open spec fn header_byte(b: u8) -> bool {
    (b >= 32 && b != 127) || b == 9
}

/// Every byte of `s` may stand in a header value.
pub open spec fn header_safe(s: Seq<u8>) -> bool {
    forall|i: int| 0 <= i < s.len() ==> header_byte(#[trigger] s[i])
}

/// `Bearer `, the scheme of the `Authorization` header.
pub open spec fn bearer_scheme() -> Seq<char> {
    seq!['B', 'e', 'a', 'r', 'e', 'r', ' ']
}

/// `/api/v1/`, the path of the API under the server's base URL.
pub open spec fn api_path() -> Seq<char> {
    seq!['/', 'a', 'p', 'i', '/', 'v', '1', '/']
}

/// The decimal digits of `n`, most significant first, without leading zeros.
pub open spec fn decimal(n: nat) -> Seq<char>
    decreases n,
{
    if n < 10 {
        seq![(n + 48) as char]
    } else {
        decimal(n / 10).push(((n % 10) + 48) as char)
    }
}

/// Relies on `HeaderValue::from_str`: it accepts a string exactly when every
/// byte of it is a tab, or at least a space and not DEL.
#[verifier::external_body]
fn header_value(s: &str) -> (r: Option<reqwest::header::HeaderValue>)
    ensures
        r is Some <==> header_safe(s.spec_bytes()),
{
    reqwest::header::HeaderValue::from_str(s).ok()
}

/// Relies on `ClientBuilder::build`: a client that sends `auth` as the
/// `Authorization` header of every request. Building may fail.
#[verifier::external_body]
fn client_with_authorization(auth: reqwest::header::HeaderValue) -> (r: Result<
    reqwest::Client,
    reqwest::Error,
>) {
    let mut headers = reqwest::header::HeaderMap::new();
    headers.insert(reqwest::header::AUTHORIZATION, auth);
    reqwest::Client::builder().default_headers(headers).build()
}

/// Relies on the `Display` of `u32`: its decimal digits.
#[verifier::external_body]
fn decimal_text(n: u32) -> (r: String)
    ensures
        r@ == decimal(n as nat),
{
    n.to_string()
}

/// `<prefix><id><suffix>`: an endpoint path with a numeric identifier.
fn path_with_id(prefix: &str, id: u32, suffix: &str) -> (r: String)
    ensures
        r@ == prefix@ + decimal(id as nat) + suffix@,
{
    let mut path = String::from_str(prefix);
    let digits = decimal_text(id);
    path.append(digits.as_str());
    path.append(suffix);
    path
}

/// The endpoint of one course: `courses/<id>`.
pub fn course_endpoint(course_id: u32) -> (r: String)
    ensures
        r@ == seq!['c', 'o', 'u', 'r', 's', 'e', 's', '/'] + decimal(course_id as nat),
{
    proof {
        reveal_strlit("courses/");
        reveal_strlit("");
    }
    let r = path_with_id("courses/", course_id, "");
    assert(r@ =~= seq!['c', 'o', 'u', 'r', 's', 'e', 's', '/'] + decimal(course_id as nat));
    r
}

/// The endpoint of a user's courses: `users/<id>/courses`.
pub fn user_courses_endpoint(user_id: u32) -> (r: String)
    ensures
        r@ == seq!['u', 's', 'e', 'r', 's', '/'] + decimal(user_id as nat) + seq![
            '/',
            'c',
            'o',
            'u',
            'r',
            's',
            'e',
            's',
        ],
{
    proof {
        reveal_strlit("users/");
        reveal_strlit("/courses");
    }
    path_with_id("users/", user_id, "/courses")
}

/// The endpoint of one user: `users/<id>`.
pub fn user_endpoint(user_id: u32) -> (r: String)
    ensures
        r@ == seq!['u', 's', 'e', 'r', 's', '/'] + decimal(user_id as nat),
{
    proof {
        reveal_strlit("users/");
        reveal_strlit("");
    }
    let r = path_with_id("users/", user_id, "");
    assert(r@ =~= seq!['u', 's', 'e', 'r', 's', '/'] + decimal(user_id as nat));
    r
}

/// The endpoint of an account's users: `accounts/<id>/users`.
pub fn account_users_endpoint(account_id: u32) -> (r: String)
    ensures
        r@ == seq!['a', 'c', 'c', 'o', 'u', 'n', 't', 's', '/'] + decimal(account_id as nat) + seq![
            '/',
            'u',
            's',
            'e',
            'r',
            's',
        ],
{
    proof {
        reveal_strlit("accounts/");
        reveal_strlit("/users");
    }
    path_with_id("accounts/", account_id, "/users")
}

/// A client of the API at one server.
pub struct Canvas {
    client: reqwest::Client,
    base_url: String,
}

impl Canvas {
    /// The `Authorization` header value that carries `api_token`.
    pub fn bearer(api_token: &str) -> (r: String)
        ensures
            r@ == bearer_scheme() + api_token@,
    {
        let mut auth = String::from_str("Bearer ");
        proof {
            reveal_strlit("Bearer ");
        }
        assert("Bearer "@ =~= bearer_scheme());
        auth.append(api_token);
        auth
    }

    /// A client of the server at `base_url` that authenticates with
    /// `api_token`. Fails with `InvalidToken`, before any request, exactly when
    /// the token cannot stand in an HTTP header; otherwise it fails only where
    /// the HTTP client cannot be built.
    pub fn init(base_url: &str, api_token: &str) -> (r: Result<Canvas, CanvasError>)
        ensures
            r matches Err(CanvasError::InvalidToken) <==> !header_safe(
                encode_utf8(bearer_scheme() + api_token@),
            ),
            header_safe(encode_utf8(bearer_scheme() + api_token@)) ==> (r is Ok
                || r matches Err(CanvasError::Reqwest(_))),
            r matches Ok(c) ==> c.base_url() == base_url@,
    {
        let auth = Canvas::bearer(api_token);
        let value = match header_value(auth.as_str()) {
            Some(v) => v,
            None => {
                return Err(CanvasError::InvalidToken);
            },
        };
        match client_with_authorization(value) {
            Ok(client) => Ok(Canvas { client, base_url: String::from_str(base_url) }),
            Err(e) => Err(CanvasError::Reqwest(e)),
        }
    }

    /// The server's base URL.
    pub closed spec fn base_url(&self) -> Seq<char> {
        self.base_url@
    }

    /// The HTTP client that sends the API token.
    pub fn client(&self) -> &reqwest::Client {
        &self.client
    }

    /// The absolute URL of an API endpoint: `<base>/api/v1/<endpoint>`.
    pub fn url_from_endpoint(&self, endpoint: &str) -> (r: String)
        ensures
            r@ == self.base_url() + api_path() + endpoint@,
    {
        let mut url = self.base_url.clone();
        url.append("/api/v1/");
        proof {
            reveal_strlit("/api/v1/");
        }
        assert("/api/v1/"@ =~= api_path());
        url.append(endpoint);
        url
    }

    /// A traversal of the listing at `endpoint`: it first asks for
    /// `<base>/api/v1/<endpoint>`, and nothing before it is pulled.
    pub fn stream_endpoint<T>(&self, endpoint: &str) -> (r: Paginator<T>)
        ensures
            r@ == crate::paginator::initial_state::<T>(self.base_url() + api_path() + endpoint@),
    {
        Paginator::new(self.url_from_endpoint(endpoint))
    }
}

} // verus!
