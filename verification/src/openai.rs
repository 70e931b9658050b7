//! Connecting an account of OpenAI: what is sent, and what is made of the replies.
use vstd::prelude::*;
use vstd::utf8::encode_utf8;
use crate::auth::{AuthInfo, AuthView};
use crate::callback::{accept_callback, accepted_code, callback_address, text_result,
    CallbackResult, LocalCallbackServer};
use crate::pkce::{b64url, base64_url_decode, is_b64, random_state, sha256, without_padding, Pkce,
    PkceView, CHALLENGE_LEN};
use crate::provider::{Error, ErrorView};
use crate::split::{pieces, split_char};
use crate::text::{concat2, concat3, opt_view, views};
use crate::uri::{form_text, form_urlencoded, str_pairs};

verus! {

/// The server that grants the authorization.
pub const ISSUER: &'static str = "https://auth.openai.com";

/// The name under which the client is known there.
pub const CLIENT_ID: &'static str = "app_EMoamEEZ73f0CkXaXp7hrann";

/// Where the account is used.
pub const CODEX_API_ENDPOINT: &'static str = "https://chatgpt.com/backend-api/codex/responses";

/// The port to which the browser returns; the server knows no other.
pub const OAUTH_PORT: u16 = 1455;

/// What the client asks for.
pub const SCOPES: &'static str = "openid profile email offline_access";

/// How many seconds the client waits for the browser.
pub const AWAIT_TIMEOUT_SECS: u64 = 300;

/// For how many seconds a token holds where the server does not say.
pub const DEFAULT_EXPIRES_IN: i64 = 3600;

/// The pairs of the address at which the user grants the authorization.
pub open spec fn authorize_pairs(
    challenge: Seq<char>,
    state: Seq<char>,
    redirect: Seq<char>,
) -> Seq<(Seq<char>, Seq<char>)> {
    seq![
        ("response_type"@, "code"@),
        ("client_id"@, CLIENT_ID@),
        ("redirect_uri"@, redirect),
        ("scope"@, SCOPES@),
        ("code_challenge"@, challenge),
        ("code_challenge_method"@, "S256"@),
        ("id_token_add_organizations"@, "true"@),
        ("codex_cli_simplified_flow"@, "true"@),
        ("state"@, state),
        ("originator"@, "xie-code"@),
    ]
}

/// The address at which the user grants the authorization.
pub fn build_authorize_url(pkce: &Pkce, state: &str, redirect_uri: &str) -> (r: String)
    ensures
        r@ == ISSUER@ + "/oauth/authorize?"@ + form_text(
            authorize_pairs(pkce@.challenge, state@, redirect_uri@),
        ),
{
    let mut q: Vec<(&str, &str)> = Vec::new();
    q.push(("response_type", "code"));
    q.push(("client_id", CLIENT_ID));
    q.push(("redirect_uri", redirect_uri));
    q.push(("scope", SCOPES));
    q.push(("code_challenge", pkce.challenge.as_str()));
    q.push(("code_challenge_method", "S256"));
    q.push(("id_token_add_organizations", "true"));
    q.push(("codex_cli_simplified_flow", "true"));
    q.push(("state", state));
    q.push(("originator", "xie-code"));
    assert(str_pairs(q@) =~= authorize_pairs(pkce@.challenge, state@, redirect_uri@));
    concat3(ISSUER, "/oauth/authorize?", form_urlencoded(&q).as_str())
}

/// Where codes and tokens are exchanged.
pub fn token_endpoint() -> (r: String)
    ensures
        r@ == ISSUER@ + "/oauth/token"@,
{
    concat2(ISSUER, "/oauth/token")
}

/// What is sent for a code, name by name.
pub open spec fn exchange_pairs(code: Seq<char>, redirect: Seq<char>, verifier: Seq<char>) -> Seq<
    (Seq<char>, Seq<char>),
> {
    seq![
        ("grant_type"@, "authorization_code"@),
        ("code"@, code),
        ("redirect_uri"@, redirect),
        ("client_id"@, CLIENT_ID@),
        ("code_verifier"@, verifier),
    ]
}

/// What is sent for a code.
pub fn code_exchange_body(code: &str, redirect_uri: &str, verifier: &str) -> (r: String)
    ensures
        r@ == form_text(exchange_pairs(code@, redirect_uri@, verifier@)),
{
    let mut q: Vec<(&str, &str)> = Vec::new();
    q.push(("grant_type", "authorization_code"));
    q.push(("code", code));
    q.push(("redirect_uri", redirect_uri));
    q.push(("client_id", CLIENT_ID));
    q.push(("code_verifier", verifier));
    assert(str_pairs(q@) =~= exchange_pairs(code@, redirect_uri@, verifier@));
    form_urlencoded(&q)
}

/// What is sent for a new access token, name by name.
pub open spec fn refresh_pairs(refresh_token: Seq<char>) -> Seq<(Seq<char>, Seq<char>)> {
    seq![
        ("grant_type"@, "refresh_token"@),
        ("refresh_token"@, refresh_token),
        ("client_id"@, CLIENT_ID@),
    ]
}

/// What is sent for a new access token.
pub fn refresh_body(refresh_token: &str) -> (r: String)
    ensures
        r@ == form_text(refresh_pairs(refresh_token@)),
{
    let mut q: Vec<(&str, &str)> = Vec::new();
    q.push(("grant_type", "refresh_token"));
    q.push(("refresh_token", refresh_token));
    q.push(("client_id", CLIENT_ID));
    assert(str_pairs(q@) =~= refresh_pairs(refresh_token@));
    form_urlencoded(&q)
}

/// The error for a reply with the status `status`, to what was asked for as `what`.
pub fn token_error(what: &str, status: &str, body: &str) -> (r: Error)
    ensures
        r@ == ErrorView::Oauth(what@ + " "@ + status@ + ": "@ + body@),
{
    let mut text = concat3(what, " ", status);
    text.push_str(": ");
    text.push_str(body);
    Error::Oauth(text)
}

// ── Tokens ────────────────────────────────────────────────────────────────────

/// What the server hands out.
#[derive(Debug)]
pub struct TokenResponse {
    pub id_token: Option<String>,
    pub access_token: String,
    pub refresh_token: String,
    pub expires_in: Option<i64>,
}

/// What a token says of its owner.
#[derive(Debug)]
pub struct IdTokenClaims {
    pub chatgpt_account_id: Option<String>,
    /// The account in the part of the token that is the server's own.
    pub openai_auth_account_id: Option<String>,
    /// The identifiers of the organizations.
    pub organizations: Vec<String>,
}

/// What an [`IdTokenClaims`] holds.
#[verifier::ext_equal]
pub struct ClaimsView {
    pub chatgpt_account_id: Option<Seq<char>>,
    pub openai_auth_account_id: Option<Seq<char>>,
    pub organizations: Seq<Seq<char>>,
}

impl View for IdTokenClaims {
    type V = ClaimsView;

    open spec fn view(&self) -> ClaimsView {
        ClaimsView {
            chatgpt_account_id: opt_view(self.chatgpt_account_id),
            openai_auth_account_id: opt_view(self.openai_auth_account_id),
            organizations: views(self.organizations@),
        }
    }
}

/// Whether `payload` is what a token carries: the bytes of the middle one of its three parts.
pub open spec fn is_payload(token: Seq<char>, payload: Seq<u8>) -> bool {
    let parts = pieces(token, '.');
    parts.len() == 3 && b64url(payload) == without_padding(parts[1])
}

/// What a token carries; nothing of its signature is examined.
pub fn jwt_payload(token: &str) -> (r: Option<Vec<u8>>)
    ensures
        r is Some <==> pieces(token@, '.').len() == 3 && is_b64(pieces(token@, '.')[1]),
        r matches Some(b) ==> is_payload(token@, b@),
{
    let parts = split_char(token, '.');
    assert(parts@.len() == pieces(token@, '.').len());
    if parts.len() != 3 {
        return None;
    }
    assert(views(parts@)[1] == parts@[1]@);
    match base64_url_decode(parts[1].as_str()) {
        Ok(b) => Some(b),
        Err(_) => None,
    }
}

/// The account that a token names: directly, in the server's own part, or as the first of the
/// organizations.
pub open spec fn claimed_account(c: ClaimsView) -> Option<Seq<char>> {
    match c.chatgpt_account_id {
        Some(id) => Some(id),
        None => match c.openai_auth_account_id {
            Some(id) => Some(id),
            None => if c.organizations.len() > 0 {
                Some(c.organizations[0])
            } else {
                None
            },
        },
    }
}

/// The account that a token names.
pub fn account_id(c: &IdTokenClaims) -> (r: Option<String>)
    ensures
        opt_view(r) == claimed_account(c@),
{
    if let Some(id) = &c.chatgpt_account_id {
        return Some(id.clone());
    }
    if let Some(id) = &c.openai_auth_account_id {
        return Some(id.clone());
    }
    if c.organizations.len() > 0 {
        assert(c@.organizations[0] == c.organizations@[0]@);
        Some(c.organizations[0].clone())
    } else {
        None
    }
}

/// The account that the claims of a token name, where there are claims.
pub open spec fn opt_account(c: Option<IdTokenClaims>) -> Option<Seq<char>> {
    match c {
        Some(x) => claimed_account(x@),
        None => None,
    }
}

/// The account that the tokens name: the identity token comes first, then the access token. A
/// token without claims is passed over.
pub fn extract_account_id(id_token: &Option<IdTokenClaims>, access: &Option<IdTokenClaims>) -> (r:
    Option<String>)
    ensures
        opt_view(r) == (match opt_account(*id_token) {
            Some(id) => Some(id),
            None => opt_account(*access),
        }),
{
    if let Some(c) = id_token {
        if let Some(id) = account_id(c) {
            return Some(id);
        }
    }
    match access {
        Some(c) => account_id(c),
        None => None,
    }
}

/// When a token ends, in milliseconds.
pub open spec fn expiry(now_ms: i64, expires_in: Option<i64>) -> int {
    now_ms + (match expires_in {
        Some(s) => s,
        None => DEFAULT_EXPIRES_IN,
    }) * 1000
}

/// The credential that the tokens make, at the time `now_ms`.
pub fn build_auth_info(tokens: TokenResponse, account_id: Option<String>, now_ms: i64) -> (r:
    AuthInfo)
    requires
        i64::MIN <= expiry(now_ms, tokens.expires_in) <= i64::MAX,
        tokens.expires_in matches Some(s) ==> i64::MIN <= s * 1000 <= i64::MAX,
    ensures
        r@ == (AuthView::Oauth {
            refresh: tokens.refresh_token@,
            access: tokens.access_token@,
            expires_at_ms: expiry(now_ms, tokens.expires_in) as i64,
            account_id: opt_view(account_id),
        }),
{
    let lifetime: i64 = match tokens.expires_in {
        Some(s) => s,
        None => DEFAULT_EXPIRES_IN,
    };
    let expires_at_ms: i64 = now_ms + lifetime * 1000;
    AuthInfo::Oauth {
        refresh: tokens.refresh_token,
        access: tokens.access_token,
        expires_at_ms,
        account_id,
    }
}

// ── The flow ──────────────────────────────────────────────────────────────────

/// Connects an account by way of the browser.
pub struct OpenAiOauth;

/// An authorization that was asked for: the address for the browser, where it returns to, and
/// what ties its answer to the question.
#[derive(Debug)]
pub struct OpenAiBrowserFlow {
    pub authorize_url: String,
    pub redirect_uri: String,
    pkce: Pkce,
    state: String,
}

/// What an [`OpenAiBrowserFlow`] holds.
pub struct FlowView {
    pub authorize_url: Seq<char>,
    pub redirect_uri: Seq<char>,
    pub pkce: PkceView,
    pub state: Seq<char>,
}

impl View for OpenAiBrowserFlow {
    type V = FlowView;

    closed spec fn view(&self) -> FlowView {
        FlowView {
            authorize_url: self.authorize_url@,
            redirect_uri: self.redirect_uri@,
            pkce: self.pkce@,
            state: self.state@,
        }
    }
}

/// The authorization with the key `pkce` and the state `state`, answered at `port`.
pub open spec fn flow_for(pkce: PkceView, state: Seq<char>, port: nat) -> FlowView {
    let redirect_uri = callback_address(port);
    FlowView {
        authorize_url: ISSUER@ + "/oauth/authorize?"@ + form_text(
            authorize_pairs(pkce.challenge, state, redirect_uri),
        ),
        redirect_uri,
        pkce,
        state,
    }
}

impl OpenAiOauth {
    /// The authorization with the key `pkce` and the state `state`, answered at `port`.
    pub fn flow_with(pkce: Pkce, state: String, port: u16) -> (r: OpenAiBrowserFlow)
        ensures
            r@ == flow_for(pkce@, state@, port as nat),
    {
        let redirect_uri = LocalCallbackServer::redirect_uri(port);
        let authorize_url = build_authorize_url(&pkce, state.as_str(), redirect_uri.as_str());
        OpenAiBrowserFlow { authorize_url, redirect_uri, pkce, state }
    }

    /// A new authorization, answered at `port`, with a key and a state that nobody can guess.
    pub fn start_browser_flow(port: u16) -> (r: OpenAiBrowserFlow)
        ensures
            r@ == flow_for(r@.pkce, r@.state, port as nat),
            r@.pkce.verifier.len() == 64,
            r@.pkce.challenge == b64url(
                sha256(encode_utf8(r@.pkce.verifier)),
            ),
            r@.pkce.challenge.len() == CHALLENGE_LEN,
            exists|bytes: Seq<u8>| bytes.len() == 32 && r@.state == #[trigger] b64url(bytes),
    {
        let pkce = Pkce::generate();
        let state = random_state(32);
        OpenAiOauth::flow_with(pkce, state, port)
    }
}

impl OpenAiBrowserFlow {
    /// What is sent for a token, where the browser returned with `c`; or why that cannot be.
    pub fn accept(&self, c: &CallbackResult) -> (r: Result<String, Error>)
        ensures
            text_result(r) == (match accepted_code(c@, self@.state) {
                Ok(code) => Ok(
                    form_text(
                        seq![
                            ("grant_type"@, "authorization_code"@),
                            ("code"@, code),
                            ("redirect_uri"@, self@.redirect_uri),
                            ("client_id"@, CLIENT_ID@),
                            ("code_verifier"@, self@.pkce.verifier),
                        ],
                    ),
                ),
                Err(e) => Err(e),
            }),
    {
        match accept_callback(c, self.state.as_str()) {
            Ok(code) => Ok(
                code_exchange_body(
                    code.as_str(),
                    self.redirect_uri.as_str(),
                    self.pkce.verifier.as_str(),
                ),
            ),
            Err(e) => Err(e),
        }
    }
}

} // verus!
