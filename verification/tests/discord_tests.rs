use hello_pi::discord::AuthorizationToken;
use hello_pi::discord::Connection;
use hello_pi::discord::DiscordErr;
use hello_pi::discord::TokenType;
use hello_pi::http::HttpClient;
use hello_pi::http::HttpHeader;
use hello_pi::http::HttpRequest;
use hello_pi::http::HttpResponse;
use hello_pi::http::HttpStatus;

#[test]
fn new_bot_sets_type_and_token() {
    let t = AuthorizationToken::new_bot("abc123".to_owned());
    assert_eq!(t.token_type(), TokenType::Bot);
    assert_eq!(t.token(), "abc123");
}

#[test]
fn new_user_sets_type_and_token() {
    let t = AuthorizationToken::new_user("xyz".to_owned());
    assert_eq!(t.token_type(), TokenType::OAuth);
    assert_eq!(t.token(), "xyz");
}

#[test]
fn token_type_parses_scheme_words() {
    assert_eq!(TokenType::from_str("Bearer").unwrap(), TokenType::OAuth);
    assert_eq!(TokenType::from_str("Bot").unwrap(), TokenType::Bot);
    assert!(TokenType::from_str("Basic").is_err());
    assert!(TokenType::from_str("").is_err());
}

#[test]
fn token_type_renders_scheme_words() {
    assert_eq!(TokenType::OAuth.scheme(), "Bearer");
    assert_eq!(TokenType::Bot.scheme(), "Bot");
}

#[test]
fn header_value_is_scheme_space_token() {
    let t = AuthorizationToken::new_bot("SECRET-REDACTED".to_owned());
    assert_eq!(t.header_value(), "Bot SECRET-REDACTED");
    let u = AuthorizationToken::new_user("tok".to_owned());
    assert_eq!(u.header_value(), "Bearer tok");
}

#[test]
fn token_from_str_accepts_two_words() {
    let t = AuthorizationToken::from_str("Bot abc123").unwrap();
    assert_eq!(t.token_type(), TokenType::Bot);
    assert_eq!(t.token(), "abc123");
}

#[test]
fn token_from_str_accepts_surrounding_whitespace() {
    let t = AuthorizationToken::from_str("  Bearer\txyz \n").unwrap();
    assert_eq!(t.token_type(), TokenType::OAuth);
    assert_eq!(t.token(), "xyz");
}

#[test]
fn token_from_str_splits_on_unicode_whitespace() {
    let t = AuthorizationToken::from_str("Bot\u{000B}x").unwrap();
    assert_eq!(t.token_type(), TokenType::Bot);
    assert_eq!(t.token(), "x");
    let u = AuthorizationToken::from_str("Bearer\u{00A0}tok\u{2028}").unwrap();
    assert_eq!(u.token_type(), TokenType::OAuth);
    assert_eq!(u.token(), "tok");
}

#[test]
fn token_from_str_rejects_wrong_word_counts() {
    assert!(AuthorizationToken::from_str("Bot").is_err());
    assert!(AuthorizationToken::from_str("").is_err());
    assert!(AuthorizationToken::from_str("Bot a b").is_err());
}

#[test]
fn token_from_str_rejects_unknown_scheme() {
    assert!(AuthorizationToken::from_str("Basic abc").is_err());
}

#[test]
fn header_value_round_trips_through_from_str() {
    let t = AuthorizationToken::new_bot("abc123".to_owned());
    let back = AuthorizationToken::from_str(&t.header_value()).unwrap();
    assert_eq!(back.token_type(), TokenType::Bot);
    assert_eq!(back.token(), "abc123");
}

#[test]
fn from_token_and_gateway_keeps_both() {
    let gateway = url::Url::parse("wss://gateway.discord.gg/").unwrap();
    let conn = Connection::from_token_and_gateway(
        AuthorizationToken::new_bot("T".to_owned()),
        gateway.clone(),
    );
    assert_eq!(conn.auth().token(), "T");
    assert_eq!(conn.gateway(), &gateway);
}

#[test]
fn gateway_body_with_url_gives_connection() {
    let auth = AuthorizationToken::new_bot("T".to_owned());
    let conn = Connection::from_gateway_body::<()>(
        auth,
        "{\"url\": \"wss://gateway.discord.gg/\"}",
    )
    .unwrap();
    assert_eq!(conn.auth().token(), "T");
    assert_eq!(conn.gateway(), &url::Url::parse("wss://gateway.discord.gg/").unwrap());
}

#[test]
fn gateway_body_invalid_json_is_json_error() {
    let auth = AuthorizationToken::new_bot("T".to_owned());
    let r = Connection::from_gateway_body::<()>(auth, "not json at all {");
    assert!(matches!(r, Err(DiscordErr::Json(_))));
}

#[test]
fn gateway_body_non_object_is_wrong_type() {
    let auth = AuthorizationToken::new_bot("T".to_owned());
    let r = Connection::from_gateway_body::<()>(auth, "[1, 2, 3]");
    assert!(matches!(r, Err(DiscordErr::JsonWrongType("Object"))));
}

#[test]
fn gateway_body_missing_key_is_missing_key() {
    let auth = AuthorizationToken::new_bot("T".to_owned());
    let r = Connection::from_gateway_body::<()>(auth, "{\"gateway\": 1}");
    assert!(matches!(r, Err(DiscordErr::JsonMissingKey("url"))));
}

#[test]
fn gateway_body_non_string_url_is_wrong_type() {
    let auth = AuthorizationToken::new_bot("T".to_owned());
    let r = Connection::from_gateway_body::<()>(auth, "{\"url\": 17}");
    assert!(matches!(r, Err(DiscordErr::JsonWrongType("String"))));
}

#[test]
fn gateway_body_unparsable_url_is_url_error() {
    let auth = AuthorizationToken::new_bot("T".to_owned());
    let r = Connection::from_gateway_body::<()>(auth, "{\"url\": \"no scheme here\"}");
    assert!(matches!(r, Err(DiscordErr::UrlParse(_))));
}

struct MockClient {
    body: String,
}

struct MockRequest {
    body: String,
    headers: usize,
}

struct MockResponse {
    body: String,
}

impl HttpClient for MockClient {
    type Request = MockRequest;

    fn get(&self, _url: url::Url) -> MockRequest {
        MockRequest { body: self.body.clone(), headers: 0 }
    }
}

impl HttpRequest for MockRequest {
    type Response = MockResponse;
    type Error = String;

    fn header(self, _header: HttpHeader) -> Self {
        MockRequest { body: self.body, headers: self.headers + 1 }
    }

    fn body(self, _body: &str) -> Self {
        self
    }

    fn send(self) -> Result<MockResponse, String> {
        Ok(MockResponse { body: self.body })
    }
}

impl HttpResponse for MockResponse {
    type Error = String;

    fn status(&self) -> HttpStatus {
        HttpStatus { code: 200, reason: "OK".to_owned() }
    }

    fn read_body(&mut self) -> Result<String, std::io::Error> {
        Ok(self.body.clone())
    }
}

struct FailingClient;

struct FailingRequest;

impl HttpClient for FailingClient {
    type Request = FailingRequest;

    fn get(&self, _url: url::Url) -> FailingRequest {
        FailingRequest
    }
}

impl HttpRequest for FailingRequest {
    type Response = MockResponse;
    type Error = String;

    fn header(self, _header: HttpHeader) -> Self {
        self
    }

    fn body(self, _body: &str) -> Self {
        self
    }

    fn send(self) -> Result<MockResponse, String> {
        Err("connection refused".to_owned())
    }
}

#[test]
fn from_token_reads_gateway_from_transport() {
    let client = MockClient { body: "{\"url\": \"wss://gateway.discord.gg/\"}".to_owned() };
    let conn = Connection::from_token(AuthorizationToken::new_bot("T".to_owned()), &client)
        .unwrap();
    assert_eq!(conn.auth().token(), "T");
    assert_eq!(conn.auth().token_type(), TokenType::Bot);
    assert_eq!(conn.gateway(), &url::Url::parse("wss://gateway.discord.gg/").unwrap());
}

#[test]
fn from_token_surfaces_transport_error() {
    let r = Connection::from_token(AuthorizationToken::new_bot("T".to_owned()), &FailingClient);
    match r {
        Err(DiscordErr::Http(msg)) => assert_eq!(msg, "connection refused"),
        _ => panic!("expected the transport error"),
    }
}

#[test]
fn from_token_rejects_bad_gateway_json() {
    let client = MockClient { body: "{{{{".to_owned() };
    let r = Connection::from_token(AuthorizationToken::new_bot("T".to_owned()), &client);
    assert!(matches!(r, Err(DiscordErr::Json(_))));
}
