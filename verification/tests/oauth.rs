use sha2::Digest;
use zhi::auth::{AuthInfo, AuthStore};
use zhi::callback::{
    accept_callback, answer_request, callback_page, callback_response, html_escape, parse_callback,
    CallbackResult, LocalCallbackServer,
};
use zhi::map::StringMap;
use zhi::openai::{
    account_id, build_auth_info, build_authorize_url, code_exchange_body, extract_account_id,
    jwt_payload, refresh_body, token_endpoint, token_error, IdTokenClaims,
    OpenAiOauth, TokenResponse, CLIENT_ID, ISSUER, OAUTH_PORT,
};
use zhi::pkce::{base64_url_decode, base64_url_encode, random_state, Pkce};
use zhi::uri::{form_urlencoded, parse_query, url_decode, urlencode};

#[test]
fn authorize_url_has_required_params() {
    let pkce = Pkce::generate();
    let state = "test-state";
    let url = build_authorize_url(&pkce, state, "http://127.0.0.1:1455/auth/callback");
    assert!(url.starts_with(&format!("{ISSUER}/oauth/authorize?")));
    assert!(url.contains("response_type=code"));
    assert!(url.contains(&format!("client_id={CLIENT_ID}")));
    assert!(url.contains("code_challenge_method=S256"));
    assert!(url.contains(&format!("code_challenge={}", pkce.challenge)));
    assert!(url.contains(&format!("state={state}")));
    assert!(url.contains("originator=xie-code"));
}

#[test]
fn authorize_url_in_full() {
    let pkce = Pkce::with_digest("v".to_string(), &vec![0, 1]);
    assert_eq!(
        build_authorize_url(&pkce, "s t", &LocalCallbackServer::redirect_uri(1455)),
        "https://auth.openai.com/oauth/authorize?response_type=code\
         &client_id=app_EMoamEEZ73f0CkXaXp7hrann\
         &redirect_uri=http%3A%2F%2F127.0.0.1%3A1455%2Fauth%2Fcallback\
         &scope=openid%20profile%20email%20offline_access\
         &code_challenge=AAE&code_challenge_method=S256\
         &id_token_add_organizations=true&codex_cli_simplified_flow=true\
         &state=s%20t&originator=xie-code"
    );
}

#[test]
fn parses_jwt_claims_with_account_id() {
    let mut payload = serde_json::Map::new();
    payload.insert("chatgpt_account_id".to_string(), serde_json::Value::from("acct_abc"));
    let text = serde_json::to_string(&serde_json::Value::Object(payload)).unwrap();
    let payload_b64 = base64_url_encode(&text.into_bytes());
    let jwt = format!("aaa.{payload_b64}.bbb");
    let bytes = jwt_payload(&jwt).expect("claims");
    let value: serde_json::Value = serde_json::from_slice(&bytes).expect("claims");
    let claims = IdTokenClaims {
        chatgpt_account_id: value["chatgpt_account_id"].as_str().map(str::to_string),
        openai_auth_account_id: None,
        organizations: Vec::new(),
    };
    assert_eq!(claims.chatgpt_account_id.as_deref(), Some("acct_abc"));
    assert_eq!(account_id(&claims).as_deref(), Some("acct_abc"));
}

#[test]
fn a_token_has_three_parts() {
    assert!(jwt_payload("a.b").is_none());
    assert!(jwt_payload("a.b.c.d").is_none());
    assert!(jwt_payload("").is_none());
    assert!(jwt_payload("a.!!.c").is_none());
    assert_eq!(jwt_payload("a.AAE.c").unwrap(), [0, 1]);
    assert_eq!(jwt_payload("a..c").unwrap(), Vec::<u8>::new());
}

#[test]
fn the_account_is_looked_for_in_order() {
    let claims = |a: Option<&str>, b: Option<&str>, o: &[&str]| IdTokenClaims {
        chatgpt_account_id: a.map(str::to_string),
        openai_auth_account_id: b.map(str::to_string),
        organizations: o.iter().map(|s| s.to_string()).collect(),
    };
    assert_eq!(account_id(&claims(Some("a"), Some("b"), &["o"])).as_deref(), Some("a"));
    assert_eq!(account_id(&claims(None, Some("b"), &["o"])).as_deref(), Some("b"));
    assert_eq!(account_id(&claims(None, None, &["o", "p"])).as_deref(), Some("o"));
    assert_eq!(account_id(&claims(None, None, &[])), None);
    let id = Some(claims(None, None, &[]));
    let access = Some(claims(Some("x"), None, &[]));
    assert_eq!(extract_account_id(&id, &access).as_deref(), Some("x"));
    assert_eq!(extract_account_id(&access, &id).as_deref(), Some("x"));
    assert_eq!(extract_account_id(&None, &None), None);
}

#[test]
fn a_credential_ends_when_the_server_says() {
    let tokens = |expires_in| TokenResponse {
        id_token: None,
        access_token: "a".to_string(),
        refresh_token: "r".to_string(),
        expires_in,
    };
    match build_auth_info(tokens(Some(10)), Some("acct".to_string()), 5) {
        AuthInfo::Oauth { refresh, access, expires_at_ms, account_id } => {
            assert_eq!(refresh, "r");
            assert_eq!(access, "a");
            assert_eq!(expires_at_ms, 10_005);
            assert_eq!(account_id.as_deref(), Some("acct"));
        }
        _ => panic!("oauth"),
    }
    match build_auth_info(tokens(None), None, 1_000) {
        AuthInfo::Oauth { expires_at_ms, account_id, .. } => {
            assert_eq!(expires_at_ms, 3_601_000);
            assert!(account_id.is_none());
        }
        _ => panic!("oauth"),
    }
}

#[test]
fn bodies_and_errors_of_the_token_endpoint() {
    assert_eq!(token_endpoint(), "https://auth.openai.com/oauth/token");
    assert_eq!(
        code_exchange_body("c d", "http://h", "ver"),
        "grant_type=authorization_code&code=c%20d&redirect_uri=http%3A%2F%2Fh\
         &client_id=app_EMoamEEZ73f0CkXaXp7hrann&code_verifier=ver"
    );
    assert_eq!(
        refresh_body("tok"),
        "grant_type=refresh_token&refresh_token=tok&client_id=app_EMoamEEZ73f0CkXaXp7hrann"
    );
    assert_eq!(
        token_error("token exchange", "400 Bad Request", "no").text(),
        "error del flujo OAuth: token exchange 400 Bad Request: no"
    );
}

#[test]
fn a_flow_ties_the_answer_to_the_question() {
    let flow = OpenAiOauth::start_browser_flow(OAUTH_PORT);
    assert_eq!(flow.redirect_uri, "http://127.0.0.1:1455/auth/callback");
    assert!(flow.authorize_url.starts_with("https://auth.openai.com/oauth/authorize?"));
    let other = OpenAiOauth::start_browser_flow(OAUTH_PORT);
    assert_ne!(flow.authorize_url, other.authorize_url);

    let pkce = Pkce::with_digest("ver".to_string(), &vec![7]);
    let flow = OpenAiOauth::flow_with(pkce, "st".to_string(), 80);
    let ok = parse_callback("GET /auth/callback?code=c&state=st HTTP/1.1\r\n\r\n");
    assert_eq!(
        flow.accept(&ok).unwrap(),
        code_exchange_body("c", "http://127.0.0.1:80/auth/callback", "ver")
    );
    let bad = parse_callback("GET /auth/callback?code=c&state=other HTTP/1.1\r\n\r\n");
    assert!(flow.accept(&bad).is_err());
}

#[test]
fn urlencode_keeps_unreserved() {
    assert_eq!(urlencode("hello world"), "hello%20world");
    assert_eq!(urlencode("a/b?c"), "a%2Fb%3Fc");
    assert_eq!(urlencode("foo-bar.baz_qux~"), "foo-bar.baz_qux~");
}

#[test]
fn encoding_is_undone_by_decoding() {
    for s in ["", "hola mundo", "añb&c=d+e%f", "漢字", "%%%", "a%2"] {
        assert_eq!(url_decode(&urlencode(s)), s);
    }
    assert_eq!(urlencode("ñ"), "%C3%B1");
    for (s, want) in [("100%", "100%"), ("%zz", "%zz"), ("%%41", "%A"), ("%+1", "% 1"), ("%4", "%4")] {
        assert_eq!(url_decode(s), want, "{s}");
    }
    assert_eq!(form_urlencoded(&vec![("a", "1 2"), ("b", "&")]), "a=1%202&b=%26");
    assert_eq!(form_urlencoded(&Vec::new()), "");
    let form = form_urlencoded(&vec![("a b", "1=2&3"), ("", ""), ("ñ", "%+")]);
    assert_eq!(form, "a%20b=1%3D2%263&=&%C3%B1=%25%2B");
    let pairs: Vec<(String, String)> = [("a b", "1=2&3"), ("", ""), ("ñ", "%+")]
        .iter()
        .map(|p| (p.0.to_string(), p.1.to_string()))
        .collect();
    assert_eq!(parse_query(&form), pairs);
}

#[test]
fn queries_are_split_into_pairs() {
    let pair = |a: &str, b: &str| (a.to_string(), b.to_string());
    assert_eq!(parse_query("a=1&b=%20&c"), vec![pair("a", "1"), pair("b", " "), pair("c", "")]);
}

#[test]
fn pkce_challenge_is_s256_of_verifier() {
    let p = Pkce::generate();
    assert!(p.verifier.len() >= 43 && p.verifier.len() <= 128);
    let expected = base64_url_encode(&sha2::Sha256::digest(p.verifier.as_bytes()).to_vec());
    assert_eq!(p.challenge, expected);
}

#[test]
fn verifiers_have_a_length_within_limits() {
    assert_eq!(Pkce::with_len(1).verifier.len(), 43);
    assert_eq!(Pkce::with_len(500).verifier.len(), 128);
    assert_eq!(Pkce::with_len(50).verifier.len(), 50);
    assert_ne!(Pkce::generate().verifier, Pkce::generate().verifier);
    assert_eq!(Pkce::from_bytes(&vec![0, 25, 26, 51, 52, 61, 62, 63, 64, 255]).verifier, "AZaz09-_A_");
    let p = Pkce::generate();
    assert_eq!(p.challenge.len(), 43);
    assert!(p.verifier.bytes().all(|b| b.is_ascii_alphanumeric() || b"-_".contains(&b)));
}

#[test]
fn the_challenge_of_a_known_verifier() {
    let verifier = "dBjftJeZ4CVP-mB92K27uhbUJU1p1r_wW1gFWFOEjXk";
    let digest = sha2::Sha256::digest(verifier.as_bytes()).to_vec();
    let p = Pkce::with_digest(verifier.to_string(), &digest);
    assert_eq!(p.challenge, "E9Melhoa2OwvFrEMTJguCHaoeK1t8URWbuGJSstw-cM");
}

#[test]
fn random_state_is_unique() {
    let a = random_state(32);
    let b = random_state(32);
    assert_ne!(a, b);
    assert_eq!(base64_url_decode(&a).unwrap().len(), 32);
}

#[test]
fn base64_url_roundtrip() {
    let raw = [0x00, 0x01, 0xff, 0xfe, 0xab];
    let encoded = base64_url_encode(&raw.to_vec());
    let decoded = base64_url_decode(&encoded).unwrap();
    assert_eq!(decoded, raw);
}

#[test]
fn padding_may_stand_or_not() {
    assert_eq!(base64_url_encode(&vec![0xfb, 0xff]), "-_8");
    assert_eq!(base64_url_decode("-_8").unwrap(), [0xfb, 0xff]);
    assert_eq!(base64_url_decode("-_8=").unwrap(), [0xfb, 0xff]);
    assert!(base64_url_decode("+/8").is_err());
    assert!(base64_url_decode("a").is_err());
}

#[test]
fn parses_query_and_extracts_code_state() {
    let r = "GET /auth/callback?code=abc&state=xyz HTTP/1.1\r\nHost: localhost\r\n\r\n";
    let p = parse_callback(r);
    assert_eq!(p.code.as_deref(), Some("abc"));
    assert_eq!(p.state.as_deref(), Some("xyz"));
    assert!(p.error.is_none());
}

#[test]
fn parses_error_with_description() {
    let r = "GET /auth/callback?error=access_denied&error_description=user%20cancel HTTP/1.1\r\n\r\n";
    let p = parse_callback(r);
    assert_eq!(p.error.as_deref(), Some("access_denied"));
    assert_eq!(p.error_description.as_deref(), Some("user cancel"));
}

#[test]
fn url_decode_handles_percent_and_plus() {
    assert_eq!(url_decode("hello+world"), "hello world");
    assert_eq!(url_decode("a%2Fb"), "a/b");
    assert_eq!(url_decode("a%2"), "a%2");
}

#[test]
fn decoding_repairs_what_is_no_text() {
    assert_eq!(url_decode("%FF"), "\u{fffd}");
    assert_eq!(url_decode("%zz"), "%zz");
}

#[test]
fn callbacks_are_answered() {
    let result = |code: Option<&str>, error: Option<&str>| CallbackResult {
        code: code.map(str::to_string),
        state: None,
        error: error.map(str::to_string),
        error_description: None,
    };
    assert!(callback_page(&result(Some("c"), None)).contains("Autorización completada"));
    let failed = callback_page(&result(None, Some("<mal>")));
    assert!(failed.contains("Autorización fallida"));
    assert!(failed.contains("&lt;mal&gt;"));
    let response = callback_response(&result(Some("c"), None));
    assert!(response.starts_with("HTTP/1.1 200 OK\r\n"));
    let (parsed, answer) = answer_request(&b"GET /auth/callback?code=z&state=w HTTP/1.1\r\n".to_vec());
    assert_eq!(parsed.code.as_deref(), Some("z"));
    assert!(answer.contains("Autorización completada"));
    assert_eq!(html_escape("a&<b>\""), "a&amp;&lt;b&gt;&quot;");
}

#[test]
fn a_foreign_state_is_refused() {
    let p = parse_callback("GET /auth/callback?code=abc&state=xyz HTTP/1.1\r\n\r\n");
    assert_eq!(accept_callback(&p, "xyz").unwrap(), "abc");
    assert!(accept_callback(&p, "otro").is_err());
    let none = parse_callback("GET /auth/callback HTTP/1.1\r\n\r\n");
    assert!(accept_callback(&none, "xyz").is_err());
    let denied = parse_callback("GET /auth/callback?error=no&state=xyz HTTP/1.1\r\n\r\n");
    assert!(accept_callback(&denied, "xyz").is_err());
}

fn api(key: &str) -> AuthInfo {
    AuthInfo::Api { key: key.to_string(), metadata: None }
}

#[test]
fn roundtrip_oauth_and_api() {
    let mut store = AuthStore::load_at("/tmp/auth.json", None);
    assert!(store.all().is_empty());
    store.set(
        "openai",
        AuthInfo::Oauth {
            refresh: "r-token".into(),
            access: "a-token".into(),
            expires_at_ms: 1_700_000_000_000,
            account_id: Some("acct_123".into()),
        },
    );
    store.set("anthropic", api("sk-ant-xxxx"));

    let mut kept = StringMap::new();
    for (id, info) in store.all() {
        kept.insert(id.clone(), info.clone());
    }
    let reloaded = AuthStore::load_at("/tmp/auth.json", Some(kept));
    match reloaded.get("openai").expect("openai") {
        AuthInfo::Oauth { refresh, access, expires_at_ms, account_id } => {
            assert_eq!(refresh, "r-token");
            assert_eq!(access, "a-token");
            assert_eq!(expires_at_ms, 1_700_000_000_000);
            assert_eq!(account_id.as_deref(), Some("acct_123"));
        }
        _ => panic!("se esperaba OAuth"),
    }
    let anthropic = reloaded.get("anthropic").expect("anthropic");
    assert!(!anthropic.is_oauth());
}

#[test]
fn remove_drops_entry() {
    let mut store = AuthStore::load_at("/tmp/auth.json", None);
    store.set("openai", api("k"));
    assert!(store.has("openai"));
    store.remove("openai");
    assert!(!store.has("openai"));
}

#[test]
fn missing_file_loads_empty() {
    let store = AuthStore::load_at("/tmp/auth.json", None);
    assert!(store.all().is_empty());
    assert_eq!(store.path(), "/tmp/auth.json");
}

#[test]
fn credentials_have_a_usual_place() {
    let at = |xdg, home| AuthStore::load_default(xdg, home, None).path().to_string();
    assert_eq!(at(Some("/d"), Some("/h")), "/d/xiě-code/auth.json");
    assert_eq!(at(Some(""), Some("/h")), "/h/.local/share/xiě-code/auth.json");
    assert_eq!(at(None, None), "./xiě-code/auth.json");
}

#[test]
fn a_new_credential_replaces_the_old_one() {
    let mut store = AuthStore::load_at("p", None);
    store.set("b", api("1"));
    store.set("a", api("2"));
    store.set("b", api("3"));
    let all: Vec<&str> = store.all().iter().map(|(id, _)| id.as_str()).collect();
    assert_eq!(all, ["a", "b"]);
    assert!(matches!(store.get("b"), Some(AuthInfo::Api { key, .. }) if key == "3"));
}

#[test]
fn a_port_that_cannot_be_had() {
    assert_eq!(
        LocalCallbackServer::bind_error(1455, "en uso").text(),
        "error del flujo OAuth: bind 1455: en uso"
    );
}
