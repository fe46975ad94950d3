//! A thin client layer for a subset of the Discord chat API.
//!
//! Authorization tokens are generated externally — by OAuth2 calls or as
//! pregenerated bot tokens — and are not validated client side. The one
//! network operation, fetching a gateway URL, goes through the transport
//! traits of [`crate::http`]; the JSON and URL handling around it is done
//! by outside crates behind the trusted wrappers at the end of this file.

use vstd::prelude::*;
use vstd::string::StrSliceExecFns;
use vstd::string::StringExecFns;
use crate::http::HttpClient;
use crate::http::HttpHeader;
use crate::http::HttpRequest;
use crate::http::HttpResponse;

verus! {

/// Whether the associated [`AuthorizationToken`] is for a user or a bot.
#[derive(Debug, Clone, Copy, PartialEq, Eq, Structural)]
pub enum TokenType {
    OAuth,
    Bot,
}

/// The scheme word that a token type puts in front of the token in an
/// Authorization header.
pub open spec fn spec_scheme(tt: TokenType) -> Seq<char> {
    match tt {
        TokenType::OAuth => "Bearer"@,
        TokenType::Bot => "Bot"@,
    }
}

/// The token type a scheme word stands for, if any.
pub open spec fn spec_token_type_of(w: Seq<char>) -> Option<TokenType> {
    if w == "Bearer"@ {
        Some(TokenType::OAuth)
    } else if w == "Bot"@ {
        Some(TokenType::Bot)
    } else {
        None
    }
}

/// An empty error type for scheme words and token strings that do not
/// parse.
#[derive(Debug, Clone, Copy, PartialEq, Eq, Structural)]
pub struct TokenTypeParseErr;

/// Compares two string slices character by character.
fn chars_eq(a: &str, b: &str) -> (r: bool)
    ensures
        r == (a@ == b@),
{
    let n = a.unicode_len();
    if n != b.unicode_len() {
        return false;
    }
    let mut i: usize = 0;
    while i < n
        invariant
            i <= n,
            n == a@.len(),
            n == b@.len(),
            forall|k: int| 0 <= k < i ==> a@[k] == b@[k],
        decreases n - i,
    {
        if a.get_char(i) != b.get_char(i) {
            return false;
        }
        i = i + 1;
    }
    proof {
        assert(a@ =~= b@);
    }
    true
}

impl TokenType {
    /// Parses a scheme word: "Bearer" stands for a user token, "Bot" for
    /// a bot token, anything else for neither.
    pub fn from_str(s: &str) -> (r: Result<TokenType, TokenTypeParseErr>)
        ensures
            (match spec_token_type_of(s@) {
                Option::Some(tt) => r == Ok::<TokenType, TokenTypeParseErr>(tt),
                Option::None => r == Err::<TokenType, TokenTypeParseErr>(TokenTypeParseErr),
            }),
    {
        if chars_eq(s, "Bearer") {
            Ok(TokenType::OAuth)
        } else if chars_eq(s, "Bot") {
            Ok(TokenType::Bot)
        } else {
            Err(TokenTypeParseErr)
        }
    }

    /// The scheme word this token type renders as.
    pub fn scheme(&self) -> (r: &'static str)
        ensures
            r@ == spec_scheme(*self),
    {
        match self {
            TokenType::OAuth => "Bearer",
            TokenType::Bot => "Bot",
        }
    }
}

/// Rendering a token type's scheme word and parsing it back yields the
/// same token type.
pub proof fn lemma_scheme_round_trip(tt: TokenType)
    ensures
        spec_token_type_of(spec_scheme(tt)) == Some(tt),
{
    reveal_strlit("Bearer");
    reveal_strlit("Bot");
    assert("Bearer"@.len() == 6);
    assert("Bot"@.len() == 3);
}

/// The characters that separate the scheme word from the token: the
/// Unicode White_Space set, as `char::is_whitespace` draws it.
pub open spec fn spec_is_ws(c: char) -> bool {
    ||| c == '\u{0009}'
    ||| c == '\u{000A}'
    ||| c == '\u{000B}'
    ||| c == '\u{000C}'
    ||| c == '\u{000D}'
    ||| c == ' '
    ||| c == '\u{0085}'
    ||| c == '\u{00A0}'
    ||| c == '\u{1680}'
    ||| c == '\u{2000}'
    ||| c == '\u{2001}'
    ||| c == '\u{2002}'
    ||| c == '\u{2003}'
    ||| c == '\u{2004}'
    ||| c == '\u{2005}'
    ||| c == '\u{2006}'
    ||| c == '\u{2007}'
    ||| c == '\u{2008}'
    ||| c == '\u{2009}'
    ||| c == '\u{200A}'
    ||| c == '\u{2028}'
    ||| c == '\u{2029}'
    ||| c == '\u{202F}'
    ||| c == '\u{205F}'
    ||| c == '\u{3000}'
}

/// Whether a character is one of the Unicode White_Space characters.
fn is_ws(c: char) -> (r: bool)
    ensures
        r == spec_is_ws(c),
{
    c == '\u{0009}' || c == '\u{000A}' || c == '\u{000B}' || c == '\u{000C}' || c == '\u{000D}'
        || c == ' ' || c == '\u{0085}' || c == '\u{00A0}' || c == '\u{1680}' || c == '\u{2000}'
        || c == '\u{2001}' || c == '\u{2002}' || c == '\u{2003}' || c == '\u{2004}' || c
        == '\u{2005}' || c == '\u{2006}' || c == '\u{2007}' || c == '\u{2008}' || c == '\u{2009}'
        || c == '\u{200A}' || c == '\u{2028}' || c == '\u{2029}' || c == '\u{202F}' || c
        == '\u{205F}' || c == '\u{3000}'
}

/// The length of the leading run of non-whitespace characters.
pub open spec fn spec_word_len(s: Seq<char>) -> nat
    decreases s.len(),
{
    if s.len() == 0 || spec_is_ws(s[0]) {
        0
    } else {
        1 + spec_word_len(s.drop_first())
    }
}

proof fn lemma_word_len_le(s: Seq<char>)
    ensures
        spec_word_len(s) <= s.len(),
    decreases s.len(),
{
    if s.len() == 0 || spec_is_ws(s[0]) {
    } else {
        lemma_word_len_le(s.drop_first());
    }
}

/// The whitespace-separated words of a character sequence, in order.
pub open spec fn spec_words(s: Seq<char>) -> Seq<Seq<char>>
    decreases s.len(),
    via spec_words_decreases
{
    if s.len() == 0 {
        Seq::empty()
    } else if spec_is_ws(s[0]) {
        spec_words(s.drop_first())
    } else {
        seq![s.take(spec_word_len(s) as int)] + spec_words(s.skip(spec_word_len(s) as int))
    }
}

#[via_fn]
proof fn spec_words_decreases(s: Seq<char>) {
    lemma_word_len_le(s);
}

/// The views of a sequence of owned strings.
pub open spec fn spec_str_views(ws: Seq<String>) -> Seq<Seq<char>> {
    ws.map_values(|w: String| w@)
}

/// A leading run of `k` non-whitespace characters, ended by the end of
/// the sequence or a whitespace character, is exactly the leading word.
proof fn lemma_word_len_range(s: Seq<char>, k: int)
    requires
        0 <= k <= s.len(),
        forall|m: int| 0 <= m < k ==> !spec_is_ws(#[trigger] s[m]),
        k == s.len() || spec_is_ws(s[k]),
    ensures
        spec_word_len(s) == k,
    decreases k,
{
    if k == 0 {
    } else {
        assert(!spec_is_ws(s[0]));
        lemma_word_len_range(s.drop_first(), k - 1);
    }
}

/// Splits a string on runs of whitespace, dropping leading and trailing
/// whitespace.
fn split_ws(s: &str) -> (r: Vec<String>)
    ensures
        spec_str_views(r@) == spec_words(s@),
{
    let n = s.unicode_len();
    let mut out: Vec<String> = Vec::new();
    let mut i: usize = 0;
    proof {
        assert(s@.skip(0int) =~= s@);
        assert(spec_str_views(out@) =~= Seq::<Seq<char>>::empty());
    }
    while i < n
        invariant
            i <= n,
            n == s@.len(),
            spec_words(s@) == spec_str_views(out@) + spec_words(s@.skip(i as int)),
        decreases n - i,
    {
        let c = s.get_char(i);
        if is_ws(c) {
            proof {
                assert(s@.skip(i as int).drop_first() =~= s@.skip(i + 1int));
            }
            i = i + 1;
        } else {
            let start = i;
            let mut j: usize = i + 1;
            while j < n
                invariant
                    start < j <= n,
                    n == s@.len(),
                    forall|m: int| start <= m < j ==> !spec_is_ws(#[trigger] s@[m]),
                ensures
                    start < j <= n,
                    forall|m: int| start <= m < j ==> !spec_is_ws(#[trigger] s@[m]),
                    j == n || spec_is_ws(s@[j as int]),
                decreases n - j,
            {
                let c2 = s.get_char(j);
                if is_ws(c2) {
                    break ;
                }
                j = j + 1;
            }
            let word = s.substring_char(start, j).to_owned();
            proof {
                let suffix = s@.skip(start as int);
                assert forall|m: int| 0 <= m < j - start implies !spec_is_ws(
                    #[trigger] suffix[m],
                ) by {
                    assert(suffix[m] == s@[start + m]);
                }
                if j < n {
                    assert(suffix[j - start] == s@[j as int]);
                }
                lemma_word_len_range(suffix, j - start);
                assert(suffix.take(j - start) =~= s@.subrange(start as int, j as int));
                assert(suffix.skip(j - start) =~= s@.skip(j as int));
                assert(spec_words(suffix) == seq![word@] + spec_words(s@.skip(j as int)));
                assert(spec_str_views(out@.push(word)) =~= spec_str_views(out@).push(word@));
                assert(spec_str_views(out@) + (seq![word@] + spec_words(s@.skip(j as int)))
                    =~= spec_str_views(out@).push(word@) + spec_words(s@.skip(j as int)));
            }
            out.push(word);
            i = j;
        }
    }
    proof {
        assert(s@.skip(n as int) =~= Seq::<char>::empty());
        assert(spec_str_views(out@) + Seq::<Seq<char>>::empty() =~= spec_str_views(out@));
    }
    out
}

/// A non-empty run of non-whitespace characters followed by whitespace
/// (or nothing) contributes itself as the leading word.
proof fn lemma_words_leading_word(w: Seq<char>, rest: Seq<char>)
    requires
        w.len() > 0,
        forall|i: int| 0 <= i < w.len() ==> !spec_is_ws(#[trigger] w[i]),
        rest.len() == 0 || spec_is_ws(rest[0]),
    ensures
        spec_words(w + rest) == seq![w] + spec_words(rest),
{
    let s = w + rest;
    assert forall|m: int| 0 <= m < w.len() implies !spec_is_ws(#[trigger] s[m]) by {
        assert(s[m] == w[m]);
    }
    if rest.len() > 0 {
        assert(s[w.len() as int] == rest[0]);
    }
    lemma_word_len_range(s, w.len() as int);
    assert(!spec_is_ws(s[0]));
    assert(s.take(w.len() as int) =~= w);
    assert(s.skip(w.len() as int) =~= rest);
}

/// Rendering a scheme word and a token as a header value and splitting
/// it back gives exactly the two words, and the scheme word parses back
/// to the same token type — as long as the token string is non-empty
/// and free of whitespace.
pub proof fn lemma_header_value_round_trip(tt: TokenType, token: Seq<char>)
    requires
        token.len() > 0,
        forall|i: int| 0 <= i < token.len() ==> !spec_is_ws(#[trigger] token[i]),
    ensures
        ({
            let words = spec_words(spec_scheme(tt) + " "@ + token);
            &&& words.len() == 2
            &&& spec_token_type_of(words[0]) == Some(tt)
            &&& words[1] == token
        }),
{
    reveal_strlit("Bearer");
    reveal_strlit("Bot");
    reveal_strlit(" ");
    let w = spec_scheme(tt);
    assert("Bearer"@.len() == 6 && "Bot"@.len() == 3 && " "@.len() == 1);
    assert(!spec_is_ws("Bearer"@[0]) && !spec_is_ws("Bearer"@[1]) && !spec_is_ws("Bearer"@[2])
        && !spec_is_ws("Bearer"@[3]) && !spec_is_ws("Bearer"@[4]) && !spec_is_ws("Bearer"@[5]));
    assert(!spec_is_ws("Bot"@[0]) && !spec_is_ws("Bot"@[1]) && !spec_is_ws("Bot"@[2]));
    let rest = " "@ + token;
    assert(rest[0] == ' ');
    lemma_words_leading_word(w, rest);
    assert((w + " "@ + token) =~= (w + rest));
    assert(rest.drop_first() =~= token);
    assert(token + Seq::<char>::empty() =~= token);
    lemma_words_leading_word(token, Seq::<char>::empty());
    assert(spec_words(Seq::<char>::empty()) =~= Seq::<Seq<char>>::empty());
    assert(spec_words(token) == seq![token] + Seq::<Seq<char>>::empty());
    assert(spec_words(token) =~= seq![token]);
    lemma_scheme_round_trip(tt);
    assert((seq![w] + seq![token])[0] == w && (seq![w] + seq![token])[1] == token);
}

/// An authorization token for a connection to the discord API. The
/// token is not validated client side for validity.
#[derive(Debug)]
pub struct AuthorizationToken {
    token: String,
    token_type: TokenType,
}

impl Clone for AuthorizationToken {
    fn clone(&self) -> (r: Self)
        ensures
            r == *self,
    {
        AuthorizationToken { token: self.token.clone(), token_type: self.token_type }
    }
}

impl AuthorizationToken {
    /// The token string.
    pub closed spec fn spec_token(&self) -> Seq<char> {
        self.token@
    }

    /// Whether the token belongs to a user or a bot.
    pub closed spec fn spec_token_type(&self) -> TokenType {
        self.token_type
    }

    /// Constructs a new `AuthorizationToken` representing a bot given
    /// the token string.
    pub fn new_bot(token: String) -> (r: AuthorizationToken)
        ensures
            r.spec_token() == token@,
            r.spec_token_type() == TokenType::Bot,
    {
        AuthorizationToken::new(token, TokenType::Bot)
    }

    /// Constructs a new `AuthorizationToken` representing a user given
    /// the token string.
    pub fn new_user(token: String) -> (r: AuthorizationToken)
        ensures
            r.spec_token() == token@,
            r.spec_token_type() == TokenType::OAuth,
    {
        AuthorizationToken::new(token, TokenType::OAuth)
    }

    /// Constructs a new `AuthorizationToken` from its parts.
    pub fn new(token: String, token_type: TokenType) -> (r: AuthorizationToken)
        ensures
            r.spec_token() == token@,
            r.spec_token_type() == token_type,
    {
        AuthorizationToken { token, token_type }
    }

    /// The token string.
    pub fn token(&self) -> (r: &str)
        ensures
            r@ == self.spec_token(),
    {
        self.token.as_str()
    }

    /// Whether the token belongs to a user or a bot.
    pub fn token_type(&self) -> (r: TokenType)
        ensures
            r == self.spec_token_type(),
    {
        self.token_type
    }

    /// The value this token renders as in an Authorization header: the
    /// scheme word, one space, the token string.
    pub fn header_value(&self) -> (r: String)
        ensures
            r@ == spec_scheme(self.spec_token_type()) + " "@ + self.spec_token(),
    {
        let mut out: String = self.token_type.scheme().to_owned();
        out.append(" ");
        out.append(self.token.as_str());
        out
    }

    /// Parses a header-style token: exactly two whitespace-separated
    /// words, a known scheme word and the token string.
    pub fn from_str(s: &str) -> (r: Result<AuthorizationToken, TokenTypeParseErr>)
        ensures
            (match r {
                Ok(t) => {
                    &&& spec_words(s@).len() == 2
                    &&& spec_token_type_of(spec_words(s@)[0]) == Some(t.spec_token_type())
                    &&& t.spec_token() == spec_words(s@)[1]
                },
                Err(_) => !(spec_words(s@).len() == 2 && spec_token_type_of(spec_words(s@)[0])
                    is Some),
            }),
    {
        let mut words = split_ws(s);
        if words.len() != 2 {
            return Err(TokenTypeParseErr);
        }
        let token = match words.pop() {
            Option::Some(w) => w,
            Option::None => {
                return Err(TokenTypeParseErr);
            },
        };
        let token_type = match TokenType::from_str(words[0].as_str()) {
            Ok(tt) => tt,
            Err(e) => {
                return Err(e);
            },
        };
        Ok(AuthorizationToken { token, token_type })
    }
}

#[verifier::external_type_specification]
#[verifier::external_body]
pub struct ExUrl(url::Url);

#[verifier::external_type_specification]
#[verifier::external_body]
pub struct ExUrlParseError(url::ParseError);

#[verifier::external_type_specification]
#[verifier::external_body]
pub struct ExJsonValue(serde_json::Value);

#[verifier::external_type_specification]
#[verifier::external_body]
pub struct ExJsonError(serde_json::Error);

#[verifier::external_type_specification]
#[verifier::external_body]
#[verifier::reject_recursive_types(K)]
#[verifier::reject_recursive_types(V)]
pub struct ExJsonMap<K, V>(serde_json::Map<K, V>);

#[verifier::external_type_specification]
#[verifier::external_body]
pub struct ExIoError(std::io::Error);

/// Whether `url::Url::parse` accepts a string. A function of the string
/// alone.
pub uninterp spec fn spec_url_ok(s: Seq<char>) -> bool;

/// Whether a text is one well-formed JSON document, as
/// `serde_json::from_str` decides it. A function of the text alone.
pub uninterp spec fn spec_json_ok(s: Seq<char>) -> bool;

/// Relies on `url::Url::parse`: the outcome depends on the input string
/// alone, and parsing succeeds exactly on the strings the URL grammar
/// accepts.
#[verifier::external_body]
fn parse_url(s: &str) -> (r: Result<url::Url, url::ParseError>)
    ensures
        r is Ok <==> spec_url_ok(s@),
{
    url::Url::parse(s)
}

/// Whether a well-formed JSON document's value is an object, as
/// `serde_json::Value::as_object` decides it. A function of the text
/// alone.
pub uninterp spec fn spec_json_object(s: Seq<char>) -> bool;

/// Whether the object a JSON document holds has the given key, as
/// `serde_json::Map::get` decides it. A function of the text and the key
/// alone.
pub uninterp spec fn spec_object_key(s: Seq<char>, key: Seq<char>) -> bool;

/// The string under the given key of the object a JSON document holds,
/// when that value is a string, as `serde_json::Value::as_str` hands it
/// out. A function of the text and the key alone.
pub uninterp spec fn spec_object_string(s: Seq<char>, key: Seq<char>) -> Option<Seq<char>>;

/// How reading one string field out of a JSON object document can end:
/// with the string, or at the first shape that does not fit.
enum JsonStringField {
    Found(String),
    NotString,
    MissingKey,
    NotObject,
}

/// Reads the string under `key` of the JSON object a text holds.
///
/// Relies on serde_json's `from_str::<Value>`, `Value::as_object`,
/// `Map::get` and `Value::as_str`, chained: each step's outcome is a
/// function of the text and the key alone, and each failing shape is
/// reported where the chain stops.
#[verifier::external_body]
fn json_object_string_field(body: &str, key: &str) -> (r: Result<
    JsonStringField,
    serde_json::Error,
>)
    ensures
        r is Ok <==> spec_json_ok(body@),
        (r matches Ok(field) ==> (match field {
            JsonStringField::NotObject => !spec_json_object(body@),
            JsonStringField::MissingKey => spec_json_object(body@) && !spec_object_key(
                body@,
                key@,
            ),
            JsonStringField::NotString => spec_json_object(body@) && spec_object_key(body@, key@)
                && spec_object_string(body@, key@) is None,
            JsonStringField::Found(u) => spec_json_object(body@) && spec_object_key(body@, key@)
                && spec_object_string(body@, key@) == Some(u@),
        })),
{
    let value: serde_json::Value = match serde_json::from_str(body) { Ok(v) => v, Err(e) => return Err(e) };
    let object = match value.as_object() { Some(o) => o, None => return Ok(JsonStringField::NotObject) };
    let field = match object.get(key) { Some(v) => v, None => return Ok(JsonStringField::MissingKey) };
    match field.as_str() { Some(s) => Ok(JsonStringField::Found(s.to_owned())), None => Ok(JsonStringField::NotString) }
}

/// The error wrapper type for the discord layer. The error type of the
/// HTTP transport is left generic.
#[derive(Debug)]
pub enum DiscordErr<E> {
    /// An error occured with the HTTP client.
    Http(E),
    /// A URL failed to parse.
    UrlParse(url::ParseError),
    /// An IO error while reading a response body.
    Io(std::io::Error),
    /// A JSON error occured.
    Json(serde_json::Error),
    /// A JSON value did not have the expected type.
    JsonWrongType(&'static str),
    /// A JSON object did not have the expected key.
    JsonMissingKey(&'static str),
}

/// The API endpoint for a path: the fixed base with the path appended,
/// parsed as a URL.
fn api_url<E>(path: &str) -> (r: Result<url::Url, DiscordErr<E>>)
    ensures
        r is Ok <==> spec_url_ok("https://discordapp.com/api"@ + path@),
        r is Err ==> r matches Err(DiscordErr::UrlParse(_)),
{
    let mut s: String = "https://discordapp.com/api".to_owned();
    s.append(path);
    match parse_url(s.as_str()) {
        Ok(u) => Ok(u),
        Err(e) => Err(DiscordErr::UrlParse(e)),
    }
}

/// A set of connection parameters for the Discord HTTP and WebSocket
/// APIs. The connections themselves are not maintained by the interface.
#[derive(Debug)]
pub struct Connection {
    auth: AuthorizationToken,
    gateway: url::Url,
}

impl Connection {
    /// The token the connection authorizes with.
    pub closed spec fn spec_auth(&self) -> AuthorizationToken {
        self.auth
    }

    /// The gateway URL the connection points at.
    pub closed spec fn spec_gateway(&self) -> url::Url {
        self.gateway
    }

    /// The token the connection authorizes with.
    pub fn auth(&self) -> (r: &AuthorizationToken)
        ensures
            *r == self.spec_auth(),
    {
        &self.auth
    }

    /// The gateway URL the connection points at.
    pub fn gateway(&self) -> (r: &url::Url)
        ensures
            *r == self.spec_gateway(),
    {
        &self.gateway
    }

    /// Creates a new `Connection` from an `AuthorizationToken` by
    /// querying the API for a new gateway using the `HttpClient`.
    ///
    /// What the transport and the gateway endpoint answer is theirs to
    /// decide; whatever comes back, a returned connection carries the
    /// token it was asked for, and a body that is not well-formed JSON
    /// is answered with the JSON error.
    pub fn from_token<C: HttpClient>(auth: AuthorizationToken, client: &C) -> (r: Result<
        Connection,
        DiscordErr<<C::Request as HttpRequest>::Error>,
    >)
        ensures
            (r matches Ok(conn) ==> conn.spec_auth() == auth),
            !spec_url_ok("https://discordapp.com/api"@ + "/gateway"@) ==> r matches Err(
                DiscordErr::UrlParse(_),
            ),
    {
        let url = match api_url("/gateway") {
            Ok(u) => u,
            Err(e) => {
                return Err(e);
            },
        };
        let request = client.get(url).header(HttpHeader::Authorization(auth.clone())).header(
            HttpHeader::UserAgent("LuxBot (http://github.com/lux01/hello_pi, 0.1.0)".to_owned()),
        );
        let mut response = match request.send() {
            Ok(resp) => resp,
            Err(e) => {
                return Err(DiscordErr::Http(e));
            },
        };
        let body = match response.read_body() {
            Ok(b) => b,
            Err(e) => {
                return Err(DiscordErr::Io(e));
            },
        };
        Connection::from_gateway_body(auth, body.as_str())
    }

    /// Reads the gateway URL out of a response body: the body must be
    /// one JSON object holding a string under "url" that parses as a
    /// URL. Each shape the body can take is answered exactly: the
    /// first check it fails names the error, and a body that passes
    /// them all yields a connection with the token it was asked for.
    pub fn from_gateway_body<E>(auth: AuthorizationToken, body: &str) -> (r: Result<
        Connection,
        DiscordErr<E>,
    >)
        ensures
            (r matches Ok(conn) ==> conn.spec_auth() == auth),
            (!spec_json_ok(body@) <==> r matches Err(DiscordErr::Json(_))),
            ((spec_json_ok(body@) && !spec_json_object(body@)) <==> (r matches Err(
                DiscordErr::JsonWrongType(m),
            ) && m@ == "Object"@)),
            ((spec_json_ok(body@) && spec_json_object(body@) && !spec_object_key(body@, "url"@))
                <==> r matches Err(DiscordErr::JsonMissingKey(_))),
            ((spec_json_ok(body@) && spec_json_object(body@) && spec_object_key(body@, "url"@)
                && spec_object_string(body@, "url"@) is None) <==> (r matches Err(
                DiscordErr::JsonWrongType(m),
            ) && m@ == "String"@)),
            (match spec_object_string(body@, "url"@) {
                Option::Some(u) => (spec_json_ok(body@) && spec_json_object(body@)
                    && spec_object_key(body@, "url"@)) ==> ((r is Ok <==> spec_url_ok(u)) && (
                !spec_url_ok(u) ==> r matches Err(DiscordErr::UrlParse(_)))),
                Option::None => true,
            }),
    {
        proof {
            reveal_strlit("Object");
            reveal_strlit("String");
            assert("Object"@.len() == 6 && "String"@.len() == 6);
            assert("Object"@[0] == 'O' && "String"@[0] == 'S');
        }
        let url_str = match json_object_string_field(body, "url") {
            Ok(JsonStringField::Found(u)) => u,
            Ok(JsonStringField::NotObject) => {
                return Err(DiscordErr::JsonWrongType("Object"));
            },
            Ok(JsonStringField::MissingKey) => {
                return Err(DiscordErr::JsonMissingKey("url"));
            },
            Ok(JsonStringField::NotString) => {
                return Err(DiscordErr::JsonWrongType("String"));
            },
            Err(e) => {
                return Err(DiscordErr::Json(e));
            },
        };
        match parse_url(url_str.as_str()) {
            Ok(gateway) => Ok(Connection { auth, gateway }),
            Err(e) => Err(DiscordErr::UrlParse(e)),
        }
    }

    /// Creates a new `Connection` from an `AuthorizationToken` and a
    /// cached gateway URL.
    pub fn from_token_and_gateway(auth: AuthorizationToken, gateway: url::Url) -> (r: Connection)
        ensures
            r.spec_auth() == auth,
            r.spec_gateway() == gateway,
    {
        Connection { auth, gateway }
    }
}

} // verus!
