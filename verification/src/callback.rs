//! The page to which the browser returns with the outcome of an authorization.
use vstd::prelude::*;
use vstd::utf8::encode_utf8;
use crate::number::{decimal, u64_text, usize_text};
use crate::provider::{Error, ErrorView};
use crate::search::{replace_all, replaced};
use crate::split::{cut_once, lines, lines_of, split_once, split_words, words};
use crate::stream::{lossy, lossy_text};
use crate::text::{concat3, opt_view, owned, str_eq, views};
use crate::uri::{pair_views, parse_query, query_pairs};

verus! {

// ── The outcome ───────────────────────────────────────────────────────────────

/// What the browser returned with.
#[derive(Debug)]
pub struct CallbackResult {
    pub code: Option<String>,
    pub state: Option<String>,
    pub error: Option<String>,
    pub error_description: Option<String>,
}

/// What a [`CallbackResult`] holds.
pub struct CallbackView {
    pub code: Option<Seq<char>>,
    pub state: Option<Seq<char>>,
    pub error: Option<Seq<char>>,
    pub error_description: Option<Seq<char>>,
}

impl View for CallbackResult {
    type V = CallbackView;

    open spec fn view(&self) -> CallbackView {
        CallbackView {
            code: opt_view(self.code),
            state: opt_view(self.state),
            error: opt_view(self.error),
            error_description: opt_view(self.error_description),
        }
    }
}

impl Clone for CallbackResult {
    fn clone(&self) -> (r: Self)
        ensures
            r == *self,
    {
        CallbackResult {
            code: self.code.clone(),
            state: self.state.clone(),
            error: self.error.clone(),
            error_description: self.error_description.clone(),
        }
    }
}

/// The pairs of a query.
pub type Params = Seq<(Seq<char>, Seq<char>)>;

/// The value of `key`: the last one that is given.
pub open spec fn param_of(params: Params, key: Seq<char>) -> Option<Seq<char>>
    decreases params.len(),
{
    if params.len() == 0 {
        None
    } else if params.last().0 == key {
        Some(params.last().1)
    } else {
        param_of(params.drop_last(), key)
    }
}

/// The outcome that the pairs of a query hold.
pub open spec fn callback_of(params: Params) -> CallbackView {
    CallbackView {
        code: param_of(params, "code"@),
        state: param_of(params, "state"@),
        error: param_of(params, "error"@),
        error_description: param_of(params, "error_description"@),
    }
}

/// The query of a request: what stands behind the first question mark of the second word of its
/// first line.
pub open spec fn request_query(request: Seq<char>) -> Option<Seq<char>> {
    let ls = lines_of(request);
    if ls.len() == 0 || words(ls[0]).len() < 2 {
        None
    } else {
        match cut_once(words(ls[0])[1], '?') {
            Some((path, query)) => Some(query),
            None => None,
        }
    }
}

/// The outcome that a request holds.
pub open spec fn callback_in(request: Seq<char>) -> CallbackView {
    match request_query(request) {
        Some(query) => callback_of(query_pairs(query)),
        None => callback_of(seq![]),
    }
}

/// The value of `key`: the last one that is given.
pub fn last_param(params: &Vec<(String, String)>, key: &str) -> (r: Option<String>)
    ensures
        opt_view(r) == param_of(pair_views(params@), key@),
{
    let ghost all = pair_views(params@);
    let mut i: usize = params.len();
    assert(all.take(i as int) =~= all);
    while i > 0
        invariant
            i <= params.len(),
            all == pair_views(params@),
            param_of(all, key@) == param_of(all.take(i as int), key@),
        decreases i,
    {
        let p = &params[i - 1];
        assert(all.take(i as int).last() == (p.0@, p.1@));
        if str_eq(p.0.as_str(), key) {
            return Some(p.1.clone());
        }
        assert(all.take(i as int).drop_last() =~= all.take(i - 1));
        i = i - 1;
    }
    None
}

/// The outcome that the pairs of a query hold.
pub fn callback_from(params: &Vec<(String, String)>) -> (r: CallbackResult)
    ensures
        r@ == callback_of(pair_views(params@)),
{
    CallbackResult {
        code: last_param(params, "code"),
        state: last_param(params, "state"),
        error: last_param(params, "error"),
        error_description: last_param(params, "error_description"),
    }
}

/// The outcome that a request holds.
pub fn parse_callback(request: &str) -> (r: CallbackResult)
    ensures
        r@ == callback_in(request@),
{
    let none: Vec<(String, String)> = Vec::new();
    assert(pair_views(none@) =~= seq![]);
    let ls = lines(request);
    assert(ls@.len() == lines_of(request@).len());
    if ls.len() == 0 {
        return callback_from(&none);
    }
    assert(views(ls@)[0] == ls@[0]@);
    let parts = split_words(ls[0].as_str());
    assert(parts@.len() == words(ls@[0]@).len());
    if parts.len() < 2 {
        return callback_from(&none);
    }
    assert(views(parts@)[1] == parts@[1]@);
    match split_once(parts[1].as_str(), '?') {
        Some((_, query)) => callback_from(&parse_query(query.as_str())),
        None => callback_from(&none),
    }
}

// ── The page ──────────────────────────────────────────────────────────────────

/// What the browser shows after a successful authorization.
pub const HTML_SUCCESS: &'static str =
    "<!doctype html>\n<html><head><title>xiě-code · Autorización completada</title>\n<style>body{font-family:system-ui,-apple-system,sans-serif;display:flex;align-items:center;justify-content:center;min-height:100vh;margin:0;background:#131010;color:#f1ecec}.c{text-align:center;padding:2rem}h1{margin-bottom:.5rem}p{color:#b7b1b1}</style>\n</head><body><div class=\"c\"><h1>Autorización completada</h1><p>Ya puedes cerrar esta ventana y volver a xiě-code.</p></div>\n<script>setTimeout(()=>window.close(),1500)</script></body></html>";

/// What the browser shows after a failure, up to the message.
pub const HTML_ERROR_HEAD: &'static str =
    "<!doctype html><html><head><title>xiě-code · Error de autorización</title>\n<style>body{font-family:system-ui,-apple-system,sans-serif;display:flex;align-items:center;justify-content:center;min-height:100vh;margin:0;background:#131010;color:#f1ecec}.c{text-align:center;padding:2rem}h1{color:#fc533a}.e{color:#ff917b;font-family:monospace;margin-top:1rem;padding:1rem;background:#3c140d;border-radius:.5rem}</style>\n</head><body><div class=\"c\"><h1>Autorización fallida</h1><div class=\"e\">";

/// What the browser shows after a failure, behind the message.
pub const HTML_ERROR_TAIL: &'static str = "</div></div></body></html>";

/// A text inside a page.
pub open spec fn html_escaped(s: Seq<char>) -> Seq<char> {
    let a = replaced(s, "&"@, "&amp;"@);
    let b = replaced(a, "<"@, "&lt;"@);
    let c = replaced(b, ">"@, "&gt;"@);
    replaced(c, "\""@, "&quot;"@)
}

/// A text inside a page.
pub fn html_escape(s: &str) -> (r: String)
    ensures
        r@ == html_escaped(s@),
{
    let a = replace_all(s, "&", "&amp;");
    let b = replace_all(a.as_str(), "<", "&lt;");
    let c = replace_all(b.as_str(), ">", "&gt;");
    replace_all(c.as_str(), "\"", "&quot;")
}

/// The page for a failure.
pub open spec fn error_page(message: Seq<char>) -> Seq<char> {
    HTML_ERROR_HEAD@ + html_escaped(message) + HTML_ERROR_TAIL@
}

/// The page for a failure.
pub fn html_error(message: &str) -> (r: String)
    ensures
        r@ == error_page(message@),
{
    concat3(HTML_ERROR_HEAD, html_escape(message).as_str(), HTML_ERROR_TAIL)
}

/// The page for an outcome: an error with its description where it has one; success where there
/// is a code.
pub open spec fn page_of(c: CallbackView) -> Seq<char> {
    match c.error {
        Some(e) => error_page(
            match c.error_description {
                Some(d) => d,
                None => e,
            },
        ),
        None => match c.code {
            Some(code) => HTML_SUCCESS@,
            None => error_page("falta el parámetro `code`"@),
        },
    }
}

/// The page for an outcome.
pub fn callback_page(c: &CallbackResult) -> (r: String)
    ensures
        r@ == page_of(c@),
{
    match &c.error {
        Some(e) => match &c.error_description {
            Some(d) => html_error(d.as_str()),
            None => html_error(e.as_str()),
        },
        None => match &c.code {
            Some(_) => owned(HTML_SUCCESS),
            None => html_error("falta el parámetro `code`"),
        },
    }
}

/// The answer to the browser: the page, with its length in bytes.
pub open spec fn http_response(body: Seq<char>) -> Seq<char> {
    "HTTP/1.1 200 OK\r\nContent-Type: text/html; charset=utf-8\r\nContent-Length: "@ + decimal(
        encode_utf8(body).len(),
    ) + "\r\nConnection: close\r\n\r\n"@ + body
}

/// The answer to the browser.
pub fn callback_response(c: &CallbackResult) -> (r: String)
    ensures
        r@ == http_response(page_of(c@)),
{
    let body = callback_page(c);
    let mut out = owned(
        "HTTP/1.1 200 OK\r\nContent-Type: text/html; charset=utf-8\r\nContent-Length: ",
    );
    out.push_str(usize_text(body.as_str().as_bytes().len()).as_str());
    out.push_str("\r\nConnection: close\r\n\r\n");
    out.push_str(body.as_str());
    out
}

/// The outcome that the bytes of a request hold, and the answer to the browser.
pub fn answer_request(bytes: &Vec<u8>) -> (r: (CallbackResult, String))
    ensures
        r.0@ == callback_in(lossy(bytes@)),
        r.1@ == http_response(page_of(callback_in(lossy(bytes@)))),
{
    let request = lossy_text(bytes);
    let c = parse_callback(request.as_str());
    let answer = callback_response(&c);
    (c, answer)
}

// ── What follows from it ──────────────────────────────────────────────────────

/// The code of an outcome, where there is no error, there is a code, and the outcome belongs to
/// the request with the state `state`.
pub open spec fn accepted_code(c: CallbackView, state: Seq<char>) -> Result<
    Seq<char>,
    ErrorView,
> {
    match c.error {
        Some(e) => Err(
            ErrorView::Oauth(
                e + ": "@ + (match c.error_description {
                    Some(d) => d,
                    None => seq![],
                }),
            ),
        ),
        None => match c.code {
            None => Err(ErrorView::Oauth("el callback no incluyó `code`"@)),
            Some(code) => if c.state == Some(state) {
                Ok(code)
            } else {
                Err(ErrorView::Oauth("el parámetro `state` no coincide (posible CSRF)"@))
            },
        },
    }
}

/// The view of a result that is a text.
pub open spec fn text_result(r: Result<String, Error>) -> Result<Seq<char>, ErrorView> {
    match r {
        Ok(s) => Ok(s@),
        Err(e) => Err(e@),
    }
}

/// The code of an outcome, where it may be used.
pub fn accept_callback(c: &CallbackResult, state: &str) -> (r: Result<String, Error>)
    ensures
        text_result(r) == accepted_code(c@, state@),
{
    if let Some(e) = &c.error {
        let mut text = e.clone();
        text.push_str(": ");
        if let Some(d) = &c.error_description {
            text.push_str(d.as_str());
        }
        assert(text@ =~= accepted_code(c@, state@)->Err_0->Oauth_0);
        return Err(Error::Oauth(text));
    }
    let code = match &c.code {
        Some(code) => code,
        None => {
            return Err(Error::Oauth(owned("el callback no incluyó `code`")));
        },
    };
    let same = match &c.state {
        Some(s) => str_eq(s.as_str(), state),
        None => false,
    };
    if same {
        Ok(code.clone())
    } else {
        Err(Error::Oauth(owned("el parámetro `state` no coincide (posible CSRF)")))
    }
}

/// No code is accepted from a callback that carries another state than the request, or none.
pub proof fn foreign_callback_is_refused(c: CallbackView, state: Seq<char>)
    requires
        c.state != Some(state),
    ensures
        accepted_code(c, state) is Err,
{
}

// ── The server ────────────────────────────────────────────────────────────────

/// The server on this machine to which the browser returns.
pub struct LocalCallbackServer;

/// Where the browser returns to, at `port` of this machine.
pub open spec fn callback_address(port: nat) -> Seq<char> {
    "http://127.0.0.1:"@ + decimal(port) + "/auth/callback"@
}

impl LocalCallbackServer {
    /// Where the browser returns to, at `port` of this machine.
    pub fn redirect_uri(port: u16) -> (r: String)
        ensures
            r@ == callback_address(port as nat),
    {
        concat3("http://127.0.0.1:", u64_text(port as u64).as_str(), "/auth/callback")
    }

    /// The error where `port` cannot be had.
    pub fn bind_error(port: u16, cause: &str) -> (r: Error)
        ensures
            r@ == ErrorView::Oauth("bind "@ + decimal(port as nat) + ": "@ + cause@),
    {
        let mut text = concat3("bind ", u64_text(port as u64).as_str(), ": ");
        text.push_str(cause);
        Error::Oauth(text)
    }
}

} // verus!
