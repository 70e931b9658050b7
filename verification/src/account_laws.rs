//! What connecting an account comes to: what is sent, what comes back, and what is made of it.
use vstd::prelude::*;
use vstd::utf8::encode_utf8;
use crate::callback::{accepted_code, callback_address, callback_in, callback_of, html_escaped,
    http_response, page_of, param_of, CallbackView, Params, HTML_ERROR_HEAD, HTML_ERROR_TAIL,
    HTML_SUCCESS};
use crate::number::decimal;
use crate::openai::{authorize_pairs, claimed_account, exchange_pairs, expiry, flow_for,
    refresh_pairs, ClaimsView, CLIENT_ID};
use crate::pkce::PkceView;
use crate::provider::ErrorView;
use crate::search::replaced;
use crate::split::{cut_once, index_of_char_is, words};
use crate::text::is_white;
use crate::text_laws::{ended_lines, first_word, is_line, is_word, lines_are_read_back,
    words_behind_white};
use crate::uri::{form_reads_back, form_text, is_unreserved, query_pairs, url_encoded,
    url_encoded_is_safe};

verus! {

// ── What comes back ───────────────────────────────────────────────────────────

/// Of the values of a parameter the last one counts, and other parameters make no difference.
pub proof fn the_last_parameter_counts(
    params: Params,
    key: Seq<char>,
    value: Seq<char>,
    other: Seq<char>,
)
    requires
        other != key,
    ensures
        param_of(params.push((key, value)), key) == Some(value),
        param_of(params.push((key, value)), other) == param_of(params, other),
        param_of(seq![], key) is None,
{
    assert(params.push((key, value)).drop_last() =~= params);
}

/// The characters of a form: those that stand for themselves in an address, and its marks.
proof fn form_is_plain(pairs: Seq<(Seq<char>, Seq<char>)>, i: int)
    requires
        0 <= i < form_text(pairs).len(),
    ensures
        is_plain(form_text(pairs)[i]),
    decreases pairs.len(),
{
    let parts = pairs.map_values(
        |p: (Seq<char>, Seq<char>)| crate::uri::form_pair(p.0, p.1),
    );
    plain_joined(parts, pairs, i);
}

spec fn is_plain(c: char) -> bool {
    is_unreserved(c) || c == '%' || c == '=' || c == '&'
}

proof fn plain_joined(
    parts: Seq<Seq<char>>,
    pairs: Seq<(Seq<char>, Seq<char>)>,
    i: int,
)
    requires
        parts == pairs.map_values(
            |p: (Seq<char>, Seq<char>)| crate::uri::form_pair(p.0, p.1),
        ),
        0 <= i < crate::search::joined(parts, "&"@).len(),
    ensures
        is_plain(crate::search::joined(parts, "&"@)[i]),
    decreases parts.len(),
{
    reveal_strlit("&");
    reveal_strlit("=");
    let all = crate::search::joined(parts, "&"@);
    if parts.len() == 1 {
        plain_pair(pairs[0].0, pairs[0].1, i);
    } else if parts.len() > 1 {
        let a = crate::search::joined(parts.drop_last(), "&"@);
        if i < a.len() {
            assert(parts.drop_last() =~= pairs.drop_last().map_values(
                |p: (Seq<char>, Seq<char>)| crate::uri::form_pair(p.0, p.1),
            ));
            plain_joined(parts.drop_last(), pairs.drop_last(), i);
            assert(all[i] == a[i]);
        } else if i > a.len() {
            plain_pair(pairs.last().0, pairs.last().1, i - a.len() - 1);
            assert(all[i] == parts.last()[i - a.len() - 1]);
        }
    }
}

proof fn plain_pair(k: Seq<char>, v: Seq<char>, i: int)
    requires
        0 <= i < crate::uri::form_pair(k, v).len(),
    ensures
        is_plain(crate::uri::form_pair(k, v)[i]),
{
    reveal_strlit("=");
    let a = url_encoded(k);
    let b = url_encoded(v);
    let s = crate::uri::form_pair(k, v);
    if i < a.len() {
        url_encoded_is_safe(k, i);
        assert(s[i] == a[i]);
    } else if i > a.len() {
        url_encoded_is_safe(v, i - a.len() - 1);
        assert(s[i] == b[i - a.len() - 1]);
    }
}

/// What the browser brings back in the query of its request is read as it was written there,
/// whatever stands in the lines behind the first.
pub proof fn a_request_is_read(
    path: Seq<char>,
    pairs: Seq<(Seq<char>, Seq<char>)>,
    lines: Seq<Seq<char>>,
)
    requires
        pairs.len() > 0,
        is_word(path),
        !path.contains('?'),
        forall|i: int| 0 <= i < lines.len() ==> is_line(#[trigger] lines[i]),
    ensures
        callback_in(
            ended_lines(
                seq!["GET "@ + (path + ("?"@ + form_text(pairs)) + " HTTP/1.1"@)] + lines,
            ),
        ) == callback_of(pairs),
{
    reveal_strlit("GET ");
    reveal_strlit("?");
    reveal_strlit(" HTTP/1.1");
    let form = form_text(pairs);
    let target = path + ("?"@ + form);
    let first = "GET "@ + (target + " HTTP/1.1"@);
    let all = seq![first] + lines;
    assert forall|i: int| 0 <= i < target.len() implies !is_white(#[trigger] target[i]) by {
        if i < path.len() {
            assert(target[i] == path[i]);
        } else if i > path.len() {
            form_is_plain(pairs, i - path.len() - 1);
            assert(target[i] == form[i - path.len() - 1]);
        }
    }
    assert forall|i: int| 0 <= i < first.len() implies first[i] != '\n' by {
        if 4 <= i < 4 + target.len() {
            assert(first[i] == target[i - 4]);
            assert(!is_white(target[i - 4]));
        } else if i >= 4 + target.len() {
            assert(first[i] == " HTTP/1.1"@[i - 4 - target.len()]);
        }
    }
    assert(first.last() == '1');
    assert(is_line(first));
    assert forall|i: int| 0 <= i < all.len() implies is_line(#[trigger] all[i]) by {
        if i > 0 {
            assert(all[i] == lines[i - 1]);
        }
    }
    lines_are_read_back(all, seq![]);
    assert(ended_lines(all) + Seq::<char>::empty() =~= ended_lines(all));
    let get: Seq<char> = seq!['G', 'E', 'T'];
    assert(is_word(get));
    let rest = " HTTP/1.1"@;
    assert(first =~= get + (seq![' '] + (target + rest)));
    first_word(get, seq![' '] + (target + rest));
    words_behind_white(' ', target + rest);
    first_word(target, rest);
    let w = words(first);
    assert(w == seq![get] + (seq![target] + words(rest)));
    assert(w[1] == target);
    assert forall|i: int| 0 <= i < path.len() implies target[i] != '?' by {
        assert(target[i] == path[i]);
        assert(path.contains(path[i]));
    }
    index_of_char_is(target, '?', path.len() as int);
    assert(target.skip(path.len() as int + 1) =~= form);
    form_reads_back(pairs);
}

/// The code that comes back with the state that was sent is taken; with another state, without a
/// code or with an error it is not.
pub proof fn the_code_is_taken(code: Seq<char>, state: Seq<char>, other: Seq<char>)
    ensures
        accepted_code(
            callback_of(seq![("code"@, code), ("state"@, state)]),
            state,
        ) == Ok::<Seq<char>, ErrorView>(code),
        other != state ==> accepted_code(
            callback_of(seq![("code"@, code), ("state"@, other)]),
            state,
        ) is Err,
        accepted_code(callback_of(seq![("state"@, state)]), state) is Err,
        accepted_code(
            callback_of(seq![("code"@, code), ("state"@, state), ("error"@, other)]),
            state,
        ) == Err::<Seq<char>, ErrorView>(ErrorView::Oauth(other + ": "@)),
{
    reveal_strlit("code");
    reveal_strlit("state");
    reveal_strlit("error");
    reveal_strlit("error_description");
    assert("code"@.len() == 4);
    assert("state"@.len() == 5 && "state"@[0] == 's');
    assert("error"@.len() == 5 && "error"@[0] == 'e');
    assert("error_description"@.len() == 17);
    let empty = Seq::<(Seq<char>, Seq<char>)>::empty();
    let a = seq![("code"@, code)];
    let b = seq![("code"@, code), ("state"@, state)];
    let c = seq![("code"@, code), ("state"@, other)];
    let d = seq![("state"@, state)];
    let e = seq![("code"@, code), ("state"@, state), ("error"@, other)];
    assert(a.drop_last() =~= empty);
    assert(b.drop_last() =~= a);
    assert(c.drop_last() =~= a);
    assert(d.drop_last() =~= empty);
    assert(e.drop_last() =~= b);
    reveal_with_fuel(param_of, 4);
    assert(other + ": "@ + Seq::<char>::empty() =~= other + ": "@);
}

// ── What is sent ──────────────────────────────────────────────────────────────

/// The address at which the user grants the authorization carries, behind its first question
/// mark, the challenge of the key, the state, and where the browser is to return to: the address
/// that the flow waits at.
pub proof fn the_authorization_carries_the_flow(pkce: PkceView, state: Seq<char>, port: nat)
    ensures
        ({
            let flow = flow_for(pkce, state, port);
            &&& flow.state == state
            &&& flow.pkce == pkce
            &&& flow.redirect_uri == "http://127.0.0.1:"@ + decimal(port) + "/auth/callback"@
            &&& cut_once(flow.authorize_url, '?') matches Some((address, query)) && {
                &&& address == "https://auth.openai.com/oauth/authorize"@
                &&& param_of(query_pairs(query), "state"@) == Some(state)
                &&& param_of(query_pairs(query), "code_challenge"@) == Some(pkce.challenge)
                &&& param_of(query_pairs(query), "code_challenge_method"@) == Some("S256"@)
                &&& param_of(query_pairs(query), "redirect_uri"@) == Some(flow.redirect_uri)
                &&& param_of(query_pairs(query), "response_type"@) == Some("code"@)
            }
        }),
{
    reveal_strlit("https://auth.openai.com");
    reveal_strlit("/oauth/authorize?");
    reveal_strlit("https://auth.openai.com/oauth/authorize");
    let redirect = callback_address(port);
    let pairs = authorize_pairs(pkce.challenge, state, redirect);
    let form = form_text(pairs);
    let url = flow_for(pkce, state, port).authorize_url;
    let address = "https://auth.openai.com/oauth/authorize"@;
    assert(url =~= address + (seq!['?'] + form));
    let n = address.len() as int;
    assert forall|i: int| 0 <= i < n implies url[i] != '?' by {
        assert(url[i] == address[i]);
    }
    index_of_char_is(url, '?', n);
    assert(url.take(n) =~= address);
    assert(url.skip(n + 1) =~= form);
    form_reads_back(pairs);
    named_pairs(pkce.challenge, state, redirect);
}

/// What is sent for a code says which code, where the browser returned to, and with what the
/// challenge was made; what is sent for a new access token says with which token. Both say on whose
/// behalf.
pub proof fn the_code_is_exchanged(
    code: Seq<char>,
    redirect: Seq<char>,
    verifier: Seq<char>,
    token: Seq<char>,
)
    ensures
        ({
            let sent = query_pairs(form_text(exchange_pairs(code, redirect, verifier)));
            &&& param_of(sent, "grant_type"@) == Some("authorization_code"@)
            &&& param_of(sent, "code"@) == Some(code)
            &&& param_of(sent, "redirect_uri"@) == Some(redirect)
            &&& param_of(sent, "client_id"@) == Some(CLIENT_ID@)
            &&& param_of(sent, "code_verifier"@) == Some(verifier)
        }),
        ({
            let sent = query_pairs(form_text(refresh_pairs(token)));
            &&& param_of(sent, "grant_type"@) == Some("refresh_token"@)
            &&& param_of(sent, "refresh_token"@) == Some(token)
            &&& param_of(sent, "client_id"@) == Some(CLIENT_ID@)
        }),
{
    let a = exchange_pairs(code, redirect, verifier);
    let b = refresh_pairs(token);
    form_reads_back(a);
    form_reads_back(b);
    reveal_strlit("grant_type");
    reveal_strlit("code");
    reveal_strlit("redirect_uri");
    reveal_strlit("client_id");
    reveal_strlit("code_verifier");
    reveal_strlit("refresh_token");
    assert(a[0].0.len() == 10 && a[1].0.len() == 4 && a[2].0.len() == 12);
    assert(a[3].0.len() == 9 && a[4].0.len() == 13);
    assert(b[0].0.len() == 10 && b[1].0.len() == 13 && b[2].0.len() == 9);
    param_at(a, 0);
    param_at(a, 1);
    param_at(a, 2);
    param_at(a, 3);
    param_at(a, 4);
    param_at(b, 0);
    param_at(b, 1);
    param_at(b, 2);
}

proof fn named_pairs(challenge: Seq<char>, state: Seq<char>, redirect: Seq<char>)
    ensures
        ({
            let pairs = authorize_pairs(challenge, state, redirect);
            &&& param_of(pairs, "state"@) == Some(state)
            &&& param_of(pairs, "code_challenge"@) == Some(challenge)
            &&& param_of(pairs, "code_challenge_method"@) == Some("S256"@)
            &&& param_of(pairs, "redirect_uri"@) == Some(redirect)
            &&& param_of(pairs, "response_type"@) == Some("code"@)
        }),
{
    reveal_strlit("response_type");
    reveal_strlit("client_id");
    reveal_strlit("redirect_uri");
    reveal_strlit("scope");
    reveal_strlit("code_challenge");
    reveal_strlit("code_challenge_method");
    reveal_strlit("id_token_add_organizations");
    reveal_strlit("codex_cli_simplified_flow");
    reveal_strlit("state");
    reveal_strlit("originator");
    let pairs = authorize_pairs(challenge, state, redirect);
    assert(pairs[0].0.len() == 13);
    assert(pairs[1].0.len() == 9);
    assert(pairs[2].0.len() == 12);
    assert(pairs[3].0.len() == 5 && pairs[3].0[1] == 'c');
    assert(pairs[4].0.len() == 14);
    assert(pairs[5].0.len() == 21);
    assert(pairs[6].0.len() == 26);
    assert(pairs[7].0.len() == 25);
    assert(pairs[8].0.len() == 5 && pairs[8].0[1] == 't');
    assert(pairs[9].0.len() == 10);
    param_at(pairs, 8);
    param_at(pairs, 4);
    param_at(pairs, 5);
    param_at(pairs, 2);
    param_at(pairs, 0);
}

proof fn param_at(params: Params, i: int)
    requires
        0 <= i < params.len(),
        forall|j: int| i < j < params.len() ==> (#[trigger] params[j]).0 != params[i].0,
    ensures
        param_of(params, params[i].0) == Some(params[i].1),
    decreases params.len(),
{
    if i < params.len() - 1 {
        let front = params.drop_last();
        assert(params[params.len() - 1].0 != params[i].0);
        assert forall|j: int| i < j < front.len() implies (#[trigger] front[j]).0
            != front[i].0 by {
            assert(front[j] == params[j]);
        }
        param_at(front, i);
    }
}

// ── What the user sees ────────────────────────────────────────────────────────

proof fn replaced_character(a: Seq<char>, b: Seq<char>, c: char, new: Seq<char>)
    ensures
        replaced(a + b, seq![c], new) == replaced(a, seq![c], new) + replaced(b, seq![c], new),
    decreases a.len(),
{
    let p = seq![c];
    if a.len() == 0 {
        assert(a + b =~= b);
        assert(replaced(a, p, new) =~= seq![]);
        assert(replaced(a, p, new) + replaced(b, p, new) =~= replaced(b, p, new));
    } else {
        let rest = a.drop_first();
        replaced_character(rest, b, c, new);
        assert((a + b).drop_first() =~= rest + b);
        assert((a + b).skip(1) =~= rest + b);
        assert(a.skip(1) =~= rest);
        assert(p.is_prefix_of(a) <==> a[0] == c) by {
            if a[0] == c {
                assert(a.subrange(0, 1) =~= p);
            } else {
                assert(p[0] == c);
            }
        }
        assert(p.is_prefix_of(a + b) <==> a[0] == c) by {
            if a[0] == c {
                assert((a + b).subrange(0, 1) =~= p);
            } else {
                assert(p[0] == c);
            }
        }
        assert(replaced(a + b, p, new) =~= replaced(a, p, new) + replaced(b, p, new));
    }
}

proof fn kept_character(s: Seq<char>, c: char, new: Seq<char>)
    requires
        !s.contains(c),
    ensures
        replaced(s, seq![c], new) == s,
    decreases s.len(),
{
    if s.len() > 0 {
        let t = s.drop_first();
        assert(s.contains(s[0]));
        assert(!t.contains(c)) by {
            if t.contains(c) {
                let k = choose|k: int| 0 <= k < t.len() && t[k] == c;
                assert(s[k + 1] == c);
            }
        }
        kept_character(t, c, new);
        assert(!seq![c].is_prefix_of(s)) by {
            assert(seq![c][0] == c);
        }
        assert(s =~= seq![s[0]] + t);
    } else {
        assert(replaced(s, seq![c], new) =~= s);
    }
}

/// A text inside a page is that of its characters: the four that a page uses are named, and every
/// other one stands for itself.
pub proof fn text_inside_a_page(s: Seq<char>, c: char)
    ensures
        html_escaped(seq![]) == Seq::<char>::empty(),
        html_escaped(s.push(c)) == html_escaped(s) + if c == '&' {
            "&amp;"@
        } else if c == '<' {
            "&lt;"@
        } else if c == '>' {
            "&gt;"@
        } else if c == '"' {
            "&quot;"@
        } else {
            seq![c]
        },
{
    reveal_strlit("&");
    reveal_strlit("<");
    reveal_strlit(">");
    reveal_strlit("\"");
    reveal_strlit("&amp;");
    reveal_strlit("&lt;");
    reveal_strlit("&gt;");
    reveal_strlit("&quot;");
    assert("&"@ =~= seq!['&']);
    assert("<"@ =~= seq!['<']);
    assert(">"@ =~= seq!['>']);
    assert("\""@ =~= seq!['"']);
    let none = Seq::<char>::empty();
    kept_character(none, '&', "&amp;"@);
    kept_character(none, '<', "&lt;"@);
    kept_character(none, '>', "&gt;"@);
    kept_character(none, '"', "&quot;"@);
    let one = seq![c];
    assert(s.push(c) =~= s + one);
    escaped_sum(s, one);
    one_in_a_page(c);
}

proof fn escaped_sum(a: Seq<char>, b: Seq<char>)
    requires
        "&"@ == seq!['&'],
        "<"@ == seq!['<'],
        ">"@ == seq!['>'],
        "\""@ == seq!['"'],
    ensures
        html_escaped(a + b) == html_escaped(a) + html_escaped(b),
{
    replaced_character(a, b, '&', "&amp;"@);
    let a1 = replaced(a, "&"@, "&amp;"@);
    let b1 = replaced(b, "&"@, "&amp;"@);
    replaced_character(a1, b1, '<', "&lt;"@);
    let a2 = replaced(a1, "<"@, "&lt;"@);
    let b2 = replaced(b1, "<"@, "&lt;"@);
    replaced_character(a2, b2, '>', "&gt;"@);
    let a3 = replaced(a2, ">"@, "&gt;"@);
    let b3 = replaced(b2, ">"@, "&gt;"@);
    replaced_character(a3, b3, '"', "&quot;"@);
}

proof fn one_in_a_page(c: char)
    ensures
        html_escaped(seq![c]) == if c == '&' {
            "&amp;"@
        } else if c == '<' {
            "&lt;"@
        } else if c == '>' {
            "&gt;"@
        } else if c == '"' {
            "&quot;"@
        } else {
            seq![c]
        },
{
    reveal_strlit("&");
    reveal_strlit("<");
    reveal_strlit(">");
    reveal_strlit("\"");
    reveal_strlit("&amp;");
    reveal_strlit("&lt;");
    reveal_strlit("&gt;");
    reveal_strlit("&quot;");
    assert("&"@ =~= seq!['&']);
    assert("<"@ =~= seq!['<']);
    assert(">"@ =~= seq!['>']);
    assert("\""@ =~= seq!['"']);
    let s = seq![c];
    one_replaced(c, '&', "&amp;"@);
    let s1 = replaced(s, "&"@, "&amp;"@);
    if c == '&' {
        kept_character(s1, '<', "&lt;"@);
        kept_character(s1, '>', "&gt;"@);
        kept_character(s1, '"', "&quot;"@);
    } else {
        one_replaced(c, '<', "&lt;"@);
        let s2 = replaced(s1, "<"@, "&lt;"@);
        if c == '<' {
            kept_character(s2, '>', "&gt;"@);
            kept_character(s2, '"', "&quot;"@);
        } else {
            one_replaced(c, '>', "&gt;"@);
            let s3 = replaced(s2, ">"@, "&gt;"@);
            if c == '>' {
                kept_character(s3, '"', "&quot;"@);
            } else {
                one_replaced(c, '"', "&quot;"@);
            }
        }
    }
}

proof fn one_replaced(c: char, p: char, new: Seq<char>)
    ensures
        replaced(seq![c], seq![p], new) == if c == p {
            new
        } else {
            seq![c]
        },
{
    let s = seq![c];
    let none = Seq::<char>::empty();
    assert(replaced(none, seq![p], new) =~= none);
    assert(s.skip(1) =~= none);
    assert(s.drop_first() =~= none);
    if c == p {
        assert(s.subrange(0, 1) =~= seq![p]);
        assert(new + none =~= new);
    } else {
        assert(!seq![p].is_prefix_of(s)) by {
            assert(seq![p][0] == p);
        }
        assert(seq![c] + none =~= s);
    }
}

/// The browser is shown why it failed: the description of the error where there is one, else its
/// name; without a code, that it is missing. Only a code without an error is a success.
pub proof fn the_browser_is_told(c: CallbackView)
    ensures
        c.error is None && c.code is Some ==> page_of(c) == HTML_SUCCESS@,
        c.error is Some && c.error_description is Some ==> page_of(c) == HTML_ERROR_HEAD@
            + html_escaped(c.error_description->0) + HTML_ERROR_TAIL@,
        c.error is Some && c.error_description is None ==> page_of(c) == HTML_ERROR_HEAD@
            + html_escaped(c.error->0) + HTML_ERROR_TAIL@,
        c.error is None && c.code is None ==> page_of(c) == HTML_ERROR_HEAD@ + html_escaped(
            "falta el parámetro `code`"@,
        ) + HTML_ERROR_TAIL@,
{
}

/// The answer to the browser ends with the page, and its head says how many bytes the page has.
pub proof fn the_answer_counts_its_bytes(body: Seq<char>)
    ensures
        ({
            let r = http_response(body);
            let n = r.len() - body.len();
            &&& n >= 0
            &&& r.skip(n) == body
            &&& r.take(n)
                == "HTTP/1.1 200 OK\r\nContent-Type: text/html; charset=utf-8\r\nContent-Length: "@
                + decimal(encode_utf8(body).len()) + "\r\nConnection: close\r\n\r\n"@
        }),
{
    let r = http_response(body);
    let n = r.len() - body.len();
    assert(r.skip(n) =~= body);
    assert(r.take(n)
        =~= "HTTP/1.1 200 OK\r\nContent-Type: text/html; charset=utf-8\r\nContent-Length: "@
        + decimal(encode_utf8(body).len()) + "\r\nConnection: close\r\n\r\n"@);
}

// ── What is kept ──────────────────────────────────────────────────────────────

/// A token is good for as many seconds as it says, an hour where it does not say, counted in
/// milliseconds from when it came.
pub proof fn tokens_expire(now_ms: i64, seconds: i64)
    ensures
        expiry(now_ms, Some(seconds)) - now_ms == 1000 * seconds,
        expiry(now_ms, None) - now_ms == 60 * 60 * 1000,
{
}

/// The account that a token names directly comes first, then the one in the server's own part,
/// then the first organization.
pub proof fn the_account_is_found(c: ClaimsView)
    ensures
        c.chatgpt_account_id is Some ==> claimed_account(c) == c.chatgpt_account_id,
        c.chatgpt_account_id is None && c.openai_auth_account_id is Some ==> claimed_account(c)
            == c.openai_auth_account_id,
        c.chatgpt_account_id is None && c.openai_auth_account_id is None && c.organizations.len()
            > 0 ==> claimed_account(c) == Some(c.organizations[0]),
        claimed_account(c) is None <==> c.chatgpt_account_id is None
            && c.openai_auth_account_id is None && c.organizations.len() == 0,
{
}

} // verus!
