//! Signing in to the Kimi API with a key.
use vstd::prelude::*;
use vstd::utf8::encode_utf8;

use reqwest::header::{HeaderMap, HeaderValue, InvalidHeaderValue, MaxSizeReached};

use crate::text::joined;

verus! {

/// The headers of a request, as `reqwest` has them.
#[verifier::external_type_specification]
#[verifier::external_body]
#[verifier::reject_recursive_types(T)]
pub struct ExHeaderMap<T>(reqwest::header::HeaderMap<T>);

/// The text of a header, as `reqwest` has it.
#[verifier::external_type_specification]
#[verifier::external_body]
pub struct ExHeaderValue(reqwest::header::HeaderValue);

/// What `reqwest` reports of a text that no header can have.
#[verifier::external_type_specification]
#[verifier::external_body]
pub struct ExInvalidHeaderValue(reqwest::header::InvalidHeaderValue);

/// What `reqwest` reports of headers that have no room for another one.
#[verifier::external_type_specification]
#[verifier::external_body]
pub struct ExMaxSizeReached(reqwest::header::MaxSizeReached);

/// The values of each header, by its name in lower case.
pub uninterp spec fn header_entries(headers: HeaderMap<HeaderValue>) -> Map<
    Seq<char>,
    Seq<Seq<u8>>,
>;

/// How many names the headers have.
pub uninterp spec fn header_count(headers: HeaderMap<HeaderValue>) -> nat;

/// The bytes of the text of a header.
pub uninterp spec fn header_bytes(value: HeaderValue) -> Seq<u8>;

/// Up to how many names there is always room for another one.
pub const HEADER_NAMES: usize = 6553;

/// Whether a header can have that text: one without control characters, tabs
/// excepted.
pub open spec fn is_header_text(text: Seq<char>) -> bool {
    forall|i: int|
        0 <= i < text.len() ==> (#[trigger] text[i] == '\t' || (text[i] >= ' ' && text[i]
            != '\u{7f}'))
}

/// Whether a text is a short header name of lower-case letters and hyphens.
pub open spec fn is_header_name(name: Seq<char>) -> bool {
    &&& 1 <= name.len() <= 64
    &&& forall|i: int|
        0 <= i < name.len() ==> ('a' <= #[trigger] name[i] <= 'z' || name[i] == '-')
}

/// Parses a text as `HeaderValue`: it is taken over byte for byte, unless it
/// holds a control character other than a tab.
#[verifier::external_body]
fn header_value(text: &str) -> (r: Result<HeaderValue, InvalidHeaderValue>)
    ensures
        match r {
            Ok(value) => is_header_text(text@) && header_bytes(value) == encode_utf8(text@),
            Err(_) => !is_header_text(text@),
        },
{
    text.parse()
}

/// `HeaderMap::try_insert` gives a header that value in place of those that it
/// had, and hands the first of those back. It panics where the name is none. It
/// leaves the headers as they were
/// where the map would have to grow beyond its largest size, which does not
/// happen up to that many names; of more names it is not said when it does.
#[verifier::external_body]
fn insert_header(headers: &mut HeaderMap<HeaderValue>, name: &'static str, value: HeaderValue) -> (r:
    Result<Option<HeaderValue>, MaxSizeReached>)
    requires
        is_header_name(name@),
    ensures
        header_count(*old(headers)) <= HEADER_NAMES ==> r is Ok,
        match r {
            Ok(previous) => {
                &&& match previous {
                    Some(previous) => header_entries(*old(headers)).contains_key(name@)
                        && header_bytes(previous) == header_entries(*old(headers))[name@][0],
                    None => !header_entries(*old(headers)).contains_key(name@),
                }
                &&& header_entries(*final(headers)) == header_entries(*old(headers)).insert(
                    name@,
                    seq![header_bytes(value)],
                )
                &&& header_count(*final(headers)) == count_with(
                    header_entries(*old(headers)),
                    header_count(*old(headers)),
                    name@,
                )
            },
            Err(_) => {
                &&& header_entries(*final(headers)) == header_entries(*old(headers))
                &&& header_count(*final(headers)) == header_count(*old(headers))
            },
        },
{
    headers.try_insert(name, value)
}

/// How someone signs in to a provider.
#[derive(Debug)]
pub enum ProviderAuth {
    Api { key: String },
    OAuth { access: String, refresh: String, expires: i64 },
}

impl ProviderAuth {
    /// Signing in with a key.
    pub fn api_key<T: Into<String>>(key: T) -> (r: Self)
        ensures
            r matches ProviderAuth::Api { key: kept } && call_ensures(T::into, (key,), kept),
    {
        ProviderAuth::Api { key: key.into() }
    }

    /// What a request carries to show who makes it.
    pub open spec fn secret(self) -> Seq<char> {
        match self {
            ProviderAuth::Api { key } => key@,
            ProviderAuth::OAuth { access, .. } => access@,
        }
    }
}

/// A way to sign in.
#[derive(Debug)]
pub struct AuthMethod {
    pub id: String,
    pub label: String,
    pub description: Option<String>,
}

/// Why signing in failed.
#[derive(Debug)]
pub enum OAuthError {
    /// There is no way to sign in of that name.
    UnknownMethod(String),
    /// The key cannot stand in a header.
    InvalidHeader,
    /// The request has so many headers that there is no room for another one.
    TooManyHeaders,
}

/// Kimi as a provider that one signs in to.
#[derive(Debug, Clone, Copy)]
pub struct KimiProvider;

impl Default for KimiProvider {
    fn default() -> (r: Self)
        ensures
            r == KimiProvider,
    {
        KimiProvider::new()
    }
}

/// The headers with that value in place of those that the name had.
pub open spec fn with_header(
    headers: Map<Seq<char>, Seq<Seq<u8>>>,
    name: Seq<char>,
    text: Seq<char>,
) -> Map<Seq<char>, Seq<Seq<u8>>> {
    headers.insert(name, seq![encode_utf8(text)])
}

/// How many names there are with one more name, unless it is there already.
pub open spec fn count_with(
    headers: Map<Seq<char>, Seq<Seq<u8>>>,
    count: nat,
    name: Seq<char>,
) -> nat {
    if headers.contains_key(name) {
        count
    } else {
        count + 1
    }
}

/// The headers of a request that carries that secret, out of those it had.
pub open spec fn signed_headers(
    headers: Map<Seq<char>, Seq<Seq<u8>>>,
    secret: Seq<char>,
) -> Map<Seq<char>, Seq<Seq<u8>>> {
    with_header(
        with_header(headers, "authorization"@, "Bearer "@ + secret),
        "user-agent"@,
        "KimiCLI/1.1.1"@,
    )
}

/// How many names the headers of a request have that carries a secret, out of
/// those it had.
pub open spec fn signed_count(headers: Map<Seq<char>, Seq<Seq<u8>>>, count: nat) -> nat {
    count_with(headers, count_with(headers, count, "authorization"@), "user-agent"@)
}

impl KimiProvider {
    /// Kimi as a provider that one signs in to.
    pub fn new() -> (r: Self)
        ensures
            r == KimiProvider,
    {
        KimiProvider
    }

    /// The name of the provider.
    pub fn id(&self) -> (r: &'static str)
        ensures
            r@ == "kimi"@,
    {
        "kimi"
    }

    /// The name of the provider for people.
    pub fn name(&self) -> (r: &'static str)
        ensures
            r@ == "Kimi"@,
    {
        "Kimi"
    }

    /// The ways to sign in: with a key only.
    pub fn auth_methods(&self) -> (r: Vec<AuthMethod>)
        ensures
            r@.len() == 1,
            r@[0].id@ == "api-key"@,
            r@[0].label@ == "API Key"@,
            r@[0].description matches Some(description) && description@
                == "Enter an existing Kimi API key"@,
    {
        vec![
            AuthMethod {
                id: "api-key".to_owned(),
                label: "API Key".to_owned(),
                description: Some("Enter an existing Kimi API key".to_owned()),
            },
        ]
    }

    /// The settings for OAuth: Kimi has none, whatever the way to sign in.
    pub fn oauth_config<C>(&self, _method_id: &str) -> (r: Option<C>)
        ensures
            r is None,
    {
        None
    }

    /// Ends an OAuth exchange: Kimi knows no way to sign in that has one.
    pub fn post_authorize<T>(&self, method_id: &str, _tokens: &T) -> (r: Result<
        ProviderAuth,
        OAuthError,
    >)
        ensures
            r matches Err(OAuthError::UnknownMethod(id)) && id@ == method_id@,
    {
        Err(OAuthError::UnknownMethod(method_id.to_owned()))
    }

    /// The variable of the environment that holds the key.
    pub fn api_key_env_var(&self) -> (r: Option<&'static str>)
        ensures
            r matches Some(name) && name@ == "KIMI_API_KEY"@,
    {
        Some("KIMI_API_KEY")
    }

    /// Makes a request carry a secret, and the name of the client. A secret
    /// that cannot stand in a header leaves the request as it was. Where there is
    /// no room for more headers the request may carry the secret without the
    /// name of the client.
    pub fn apply_auth_headers(
        &self,
        auth: &ProviderAuth,
        headers: &mut HeaderMap<HeaderValue>,
    ) -> (r: Result<(), OAuthError>)
        ensures
            match r {
                Ok(()) => {
                    &&& is_header_text("Bearer "@ + auth.secret())
                    &&& header_entries(*final(headers)) == signed_headers(
                        header_entries(*old(headers)),
                        auth.secret(),
                    )
                    &&& header_count(*final(headers)) == signed_count(
                        header_entries(*old(headers)),
                        header_count(*old(headers)),
                    )
                },
                Err(OAuthError::InvalidHeader) => {
                    &&& !is_header_text("Bearer "@ + auth.secret())
                    &&& *final(headers) == *old(headers)
                },
                Err(OAuthError::TooManyHeaders) => {
                    &&& is_header_text("Bearer "@ + auth.secret())
                    &&& count_with(
                        header_entries(*old(headers)),
                        header_count(*old(headers)),
                        "authorization"@,
                    ) > HEADER_NAMES
                    &&& header_entries(*final(headers)) == header_entries(*old(headers))
                        || header_entries(*final(headers)) == with_header(
                        header_entries(*old(headers)),
                        "authorization"@,
                        "Bearer "@ + auth.secret(),
                    )
                },
                Err(OAuthError::UnknownMethod(_)) => false,
            },
    {
        let api_key = match auth {
            ProviderAuth::Api { key } => key,
            ProviderAuth::OAuth { access, .. } => access,
        };
        proof {
            reveal_strlit("authorization");
            reveal_strlit("user-agent");
            reveal_strlit("KimiCLI/1.1.1");
            assert("authorization"@.len() == 13 && "user-agent"@.len() == 10);
        }
        let authorization = match header_value(joined("Bearer ", api_key.as_str()).as_str()) {
            Ok(value) => value,
            Err(_) => {
                return Err(OAuthError::InvalidHeader);
            },
        };
        if insert_header(headers, "authorization", authorization).is_err() {
            return Err(OAuthError::TooManyHeaders);
        }
        let user_agent = match header_value("KimiCLI/1.1.1") {
            Ok(value) => value,
            Err(_) => {
                return Err(OAuthError::InvalidHeader);
            },
        };
        if insert_header(headers, "user-agent", user_agent).is_err() {
            return Err(OAuthError::TooManyHeaders);
        }
        Ok(())
    }
}

} // verus!
