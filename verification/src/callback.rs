//! The browser login: the callback and authorization URLs, the login
//! state, and the reading of the browser's callback request and the page
//! sent back to it.
use vstd::prelude::*;
use vstd::utf8::encode_utf8;
use crate::text::{
    chars_of, decimal, decimal_string, is_whitespace, is_ws, str_eq, string_from_range, views,
    push_string_line,
};
use crate::url::{
    encode, find_char, first_decoded, lemma_find_char_at, percent_encode, query_value, split_on,
    values_for, pair_value, lemma_percent_encode_ascii, lemma_decode_encode,
};
use crate::config::{trim_trailing_slash, trimmed_url};

verus! {

/// The URL the browser is sent back to, on the local port `port`.
pub open spec fn callback_url_spec(port: u16) -> Seq<char> {
    "http://127.0.0.1:"@ + decimal(port as nat) + "/callback"@
}

/// The URL of the local callback listener on port `port`.
pub fn callback_url(port: u16) -> (r: String)
    ensures
        r@ == callback_url_spec(port),
{
    let p = decimal_string(port as u128);
    String::from_str("http://127.0.0.1:").concat(p.as_str()).concat("/callback")
}

/// The login state: the process id and the milliseconds since the Unix
/// epoch, as `envsynx-<pid>-<millis>`.
pub fn login_state(pid: u32, millis: u128) -> (r: String)
    ensures
        r@ == "envsynx-"@ + decimal(pid as nat) + "-"@ + decimal(millis as nat),
{
    let p = decimal_string(pid as u128);
    let m = decimal_string(millis);
    String::from_str("envsynx-").concat(p.as_str()).concat("-").concat(m.as_str())
}

/// The query of the authorization URL: the callback URL and the state,
/// percent-encoded, as `redirect_uri` and `state`.
pub open spec fn authorize_query(callback: Seq<char>, state: Seq<char>) -> Seq<char> {
    "redirect_uri="@ + percent_encode(encode_utf8(callback)) + "&state="@ + percent_encode(
        encode_utf8(state),
    )
}

/// The authorization page of the API at `api_url` for the callback
/// `callback` and the state `state`.
pub open spec fn authorize_url_spec(api_url: Seq<char>, callback: Seq<char>, state: Seq<char>) -> Seq<
    char,
> {
    trimmed_url(api_url) + "/cli/authorize?"@ + authorize_query(callback, state)
}

/// The URL the browser opens to authorize the CLI: the API base URL
/// trimmed, `/cli/authorize`, and the callback URL and the state
/// percent-encoded as the `redirect_uri` and `state` parameters.
pub fn authorize_url(api_url: &str, callback: &str, state: &str) -> (r: String)
    ensures
        r@ == authorize_url_spec(api_url@, callback@, state@),
{
    let base = trim_trailing_slash(api_url);
    let c = encode(callback);
    let s = encode(state);
    let r = base.concat("/cli/authorize?").concat("redirect_uri=").concat(c.as_str()).concat(
        "&state=",
    ).concat(s.as_str());
    assert(r@ =~= authorize_url_spec(api_url@, callback@, state@));
    r
}

/// For an API URL that has no `?` once trimmed, the query of the
/// authorization URL is `authorize_query`, and reading it back gives the
/// callback URL as `redirect_uri` and the login state as `state`, whatever
/// characters they hold.
pub proof fn lemma_authorize_query_round_trip(api_url: Seq<char>, callback: Seq<char>, state: Seq<char>)
    requires
        !trimmed_url(api_url).contains('?'),
    ensures
        query_part(authorize_url_spec(api_url, callback, state)) == authorize_query(callback, state),
        query_value_spec(authorize_query(callback, state), "state"@) == Some(state),
        query_value_spec(authorize_query(callback, state), "redirect_uri"@) == Some(callback),
{
    let ec = percent_encode(encode_utf8(callback));
    let es = percent_encode(encode_utf8(state));
    lemma_percent_encode_ascii(encode_utf8(callback));
    lemma_percent_encode_ascii(encode_utf8(state));
    lemma_decode_encode(callback);
    lemma_decode_encode(state);
    reveal_strlit("/cli/authorize?");
    reveal_strlit("redirect_uri=");
    reveal_strlit("redirect_uri");
    reveal_strlit("&state=");
    reveal_strlit("state");
    reveal_strlit("state=");
    let base = trimmed_url(api_url);
    let q = authorize_query(callback, state);
    let url = authorize_url_spec(api_url, callback, state);
    // The first `?` of the URL ends "/cli/authorize?".
    let k: int = base.len() as int + 14;
    assert forall|j: int| 0 <= j < k implies url[j] != '?' by {
        if j < base.len() {
            assert(url[j] == base[j]);
            assert(base.contains(url[j]));
        } else {
            assert(url[j] == "/cli/authorize?"@[j - base.len()]);
        }
    }
    assert(url[k] == '?');
    lemma_find_char_at(url, '?', k);
    assert(url.skip(k + 1) =~= q);
    // The query splits at its one `&` into the two pairs.
    let p1 = "redirect_uri="@ + ec;
    let p2 = "state="@ + es;
    assert(q =~= p1 + seq!['&'] + p2);
    assert forall|j: int| 0 <= j < p1.len() implies q[j] != '&' by {
        if j >= 13 {
            assert(q[j] == ec[j - 13]);
        }
    }
    lemma_find_char_at(q, '&', p1.len() as int);
    assert(q.take(p1.len() as int) =~= p1);
    assert(q.skip(p1.len() as int + 1) =~= p2);
    assert forall|j: int| 0 <= j < p2.len() implies p2[j] != '&' by {
        if j >= 6 {
            assert(p2[j] == es[j - 6]);
        }
    }
    lemma_find_char_at(p2, '&', p2.len() as int);
    assert(split_on(p2, '&') == seq![p2]);
    assert(split_on(q, '&') =~= seq![p1, p2]);
    // Each pair splits at its first `=`.
    assert forall|j: int| 0 <= j < 12 implies p1[j] != '=' by {}
    lemma_find_char_at(p1, '=', 12);
    assert(p1.take(12) =~= "redirect_uri"@);
    assert(p1.skip(13) =~= ec);
    assert forall|j: int| 0 <= j < 5 implies p2[j] != '=' by {}
    lemma_find_char_at(p2, '=', 5);
    assert(p2.take(5) =~= "state"@);
    assert(p2.skip(6) =~= es);
    assert(pair_value(p1, "state"@) is None);
    assert(pair_value(p2, "state"@) == Some(es));
    assert(pair_value(p1, "redirect_uri"@) == Some(ec));
    assert(pair_value(p2, "redirect_uri"@) is None);
    let ps = seq![p1, p2];
    assert(ps.drop_last() =~= seq![p1]);
    assert(seq![p1].drop_last() =~= Seq::<Seq<char>>::empty());
    assert(values_for(Seq::<Seq<char>>::empty(), "state"@) =~= Seq::<Seq<char>>::empty());
    assert(values_for(seq![p1], "state"@) =~= Seq::<Seq<char>>::empty());
    assert(values_for(ps, "state"@) =~= seq![es]);
    assert(values_for(Seq::<Seq<char>>::empty(), "redirect_uri"@) =~= Seq::<Seq<char>>::empty());
    assert(values_for(seq![p1], "redirect_uri"@) =~= seq![ec]);
    assert(values_for(ps, "redirect_uri"@) =~= seq![ec]);
    assert(first_decoded(seq![es]) == Some(state));
    assert(first_decoded(seq![ec]) == Some(callback));
}

/// The first line of `s` as `str::lines` yields it: `None` for empty text;
/// else the text before the first `\n`, without a `\r` that stands just
/// before that `\n`.
pub open spec fn first_line(s: Seq<char>) -> Option<Seq<char>> {
    if s.len() == 0 {
        None
    } else {
        let i = find_char(s, '\n');
        let l = s.take(i as int);
        if i < s.len() && l.len() > 0 && l.last() == '\r' {
            Some(l.drop_last())
        } else {
            Some(l)
        }
    }
}

/// The length of the run of non-whitespace at the start of `s`.
pub open spec fn word_len(s: Seq<char>) -> nat
    decreases s.len(),
{
    if s.len() > 0 && !is_ws(s[0]) {
        1 + word_len(s.drop_first())
    } else {
        0
    }
}

/// The whitespace-separated words of `s`, as `str::split_whitespace`
/// yields them.
pub open spec fn ws_tokens(s: Seq<char>) -> Seq<Seq<char>>
    decreases s.len(),
{
    if s.len() == 0 {
        Seq::empty()
    } else if is_ws(s[0]) {
        ws_tokens(s.drop_first())
    } else {
        let k = word_len(s);
        proof {
            lemma_word_len_bounds(s);
        }
        seq![s.take(k as int)] + ws_tokens(s.skip(k as int))
    }
}

/// The first word of `s` lies within `s`, and is not empty where `s`
/// starts with a non-whitespace character.
pub proof fn lemma_word_len_bounds(s: Seq<char>)
    ensures
        word_len(s) <= s.len(),
        s.len() > 0 && !is_ws(s[0]) ==> word_len(s) >= 1,
    decreases s.len(),
{
    if s.len() > 0 && !is_ws(s[0]) {
        lemma_word_len_bounds(s.drop_first());
    }
}

/// Every word of `s` is a non-empty run of non-whitespace characters.
pub proof fn lemma_ws_tokens(s: Seq<char>)
    ensures
        forall|k: int| 0 <= k < ws_tokens(s).len() ==> #[trigger] ws_tokens(s)[k].len() > 0,
        forall|k: int, j: int|
            0 <= k < ws_tokens(s).len() && 0 <= j < ws_tokens(s)[k].len() ==> !is_ws(
                #[trigger] ws_tokens(s)[k][j],
            ),
    decreases s.len(),
{
    if s.len() > 0 {
        if is_ws(s[0]) {
            lemma_ws_tokens(s.drop_first());
            assert(ws_tokens(s) == ws_tokens(s.drop_first()));
        } else {
            let w = word_len(s);
            lemma_word_len_bounds(s);
            lemma_word_len_prefix(s);
            lemma_ws_tokens(s.skip(w as int));
            let t = ws_tokens(s);
            assert(t == seq![s.take(w as int)] + ws_tokens(s.skip(w as int)));
            assert forall|k: int| 0 <= k < t.len() implies #[trigger] t[k].len() > 0 by {
                if k > 0 {
                    assert(t[k] == ws_tokens(s.skip(w as int))[k - 1]);
                }
            }
            assert forall|k: int, j: int| 0 <= k < t.len() && 0 <= j < t[k].len() implies !is_ws(
                #[trigger] t[k][j],
            ) by {
                if k > 0 {
                    assert(t[k] == ws_tokens(s.skip(w as int))[k - 1]);
                } else {
                    assert(t[0][j] == s[j]);
                }
            }
        }
    }
}

/// The first word of `s` holds no whitespace.
pub proof fn lemma_word_len_prefix(s: Seq<char>)
    ensures
        forall|j: int| 0 <= j < word_len(s) ==> !is_ws(#[trigger] s[j]),
    decreases s.len(),
{
    lemma_word_len_bounds(s);
    if s.len() > 0 && !is_ws(s[0]) {
        lemma_word_len_prefix(s.drop_first());
        assert forall|j: int| 0 <= j < word_len(s) implies !is_ws(#[trigger] s[j]) by {
            if j > 0 {
                assert(s[j] == s.drop_first()[j - 1]);
            }
        }
    }
}

/// A run of `k` non-whitespace characters ended by whitespace or by the
/// end is `word_len`.
pub proof fn lemma_word_len_at(s: Seq<char>, k: int)
    requires
        0 <= k <= s.len(),
        forall|j: int| 0 <= j < k ==> !is_ws(s[j]),
        k < s.len() ==> is_ws(s[k]),
    ensures
        word_len(s) == k,
    decreases s.len(),
{
    if s.len() > 0 && k > 0 {
        assert forall|j: int| 0 <= j < k - 1 implies !is_ws(s.drop_first()[j]) by {
            assert(s.drop_first()[j] == s[j + 1]);
        }
        lemma_word_len_at(s.drop_first(), k - 1);
    }
}

/// The whitespace-separated words of `s`, as `s.split_whitespace()`
/// yields them.
pub fn split_whitespace(s: &str) -> (toks: Vec<String>)
    ensures
        views(toks@) == ws_tokens(s@),
{
    let cs = chars_of(s);
    let n = cs.len();
    let mut toks: Vec<String> = Vec::new();
    let mut i: usize = 0;
    assert(s@.skip(0) =~= s@);
    assert(views(toks@) + ws_tokens(s@) =~= ws_tokens(s@));
    while i < n
        invariant
            cs@ == s@,
            n == cs@.len(),
            i <= n,
            views(toks@) + ws_tokens(s@.skip(i as int)) == ws_tokens(s@),
        decreases n - i,
    {
        let ghost t = s@.skip(i as int);
        if is_whitespace(cs[i]) {
            assert(t[0] == cs@[i as int]);
            assert(t.drop_first() =~= s@.skip(i + 1));
            i = i + 1;
        } else {
            let mut j: usize = i + 1;
            while j < n && !is_whitespace(cs[j])
                invariant
                    cs@ == s@,
                    n == cs@.len(),
                    i < j <= n,
                    forall|m: int| i <= m < j ==> !is_ws(cs@[m]),
                decreases n - j,
            {
                j = j + 1;
            }
            proof {
                assert forall|m: int| 0 <= m < j - i implies !is_ws(t[m]) by {
                    assert(t[m] == cs@[i + m]);
                }
                if j < n {
                    assert(t[j - i] == cs@[j as int]);
                }
                lemma_word_len_at(t, j - i);
                assert(t.take(j - i) =~= cs@.subrange(i as int, j as int));
                assert(t.skip(j - i) =~= s@.skip(j as int));
                assert(t[0] == cs@[i as int]);
            }
            let w = string_from_range(&cs, i, j);
            let ghost before = views(toks@);
            push_string_line(&mut toks, w);
            assert(before.push(w@) + ws_tokens(s@.skip(j as int)) =~= before + ws_tokens(t));
            i = j;
        }
    }
    assert(s@.skip(n as int) =~= Seq::<char>::empty());
    assert(views(toks@) + Seq::<Seq<char>>::empty() =~= views(toks@));
    toks
}

/// The request target of an HTTP request text: the second word of its
/// first line.
pub open spec fn request_target_spec(request: Seq<char>) -> Option<Seq<char>> {
    match first_line(request) {
        None => None,
        Some(l) => if ws_tokens(l).len() >= 2 {
            Some(ws_tokens(l)[1])
        } else {
            None
        },
    }
}

/// The first line of `s`, as `s.lines().next()` gives it.
pub fn first_line_of(s: &str) -> (r: Option<String>)
    ensures
        match r {
            Some(l) => first_line(s@) == Some(l@),
            None => first_line(s@) is None,
        },
{
    let cs = chars_of(s);
    let n = cs.len();
    if n == 0 {
        return None;
    }
    let mut i: usize = 0;
    while i < n && cs[i] != '\n'
        invariant
            cs@ == s@,
            n == cs@.len(),
            i <= n,
            forall|j: int| 0 <= j < i ==> cs@[j] != '\n',
        decreases n - i,
    {
        i = i + 1;
    }
    proof {
        lemma_find_char_at(s@, '\n', i as int);
    }
    let ghost l = s@.take(i as int);
    if i < n && i > 0 && cs[i - 1] == '\r' {
        let r = string_from_range(&cs, 0, i - 1);
        assert(r@ =~= l.drop_last());
        Some(r)
    } else {
        let r = string_from_range(&cs, 0, i);
        assert(r@ =~= l);
        Some(r)
    }
}

/// The request target of the HTTP request `request`: the second word of
/// its first line; `None` where there is no such word.
pub fn request_target(request: &str) -> (r: Option<String>)
    ensures
        match r {
            Some(t) => request_target_spec(request@) == Some(t@),
            None => request_target_spec(request@) is None,
        },
{
    match first_line_of(request) {
        None => None,
        Some(l) => {
            let toks = split_whitespace(l.as_str());
            if toks.len() >= 2 {
                assert(views(toks@)[1] == toks@[1]@);
                Some(toks[1].clone())
            } else {
                None
            }
        },
    }
}

/// The query of a request target: the text after its first `?`, or empty.
pub open spec fn query_part(target: Seq<char>) -> Seq<char> {
    let i = find_char(target, '?');
    if i < target.len() {
        target.skip((i + 1) as int)
    } else {
        Seq::empty()
    }
}

/// The query of the request target `target`: the text after the first
/// `?`, or empty where there is none.
pub fn query_of(target: &str) -> (r: String)
    ensures
        r@ == query_part(target@),
{
    let cs = chars_of(target);
    let n = cs.len();
    let mut i: usize = 0;
    while i < n && cs[i] != '?'
        invariant
            cs@ == target@,
            n == cs@.len(),
            i <= n,
            forall|j: int| 0 <= j < i ==> cs@[j] != '?',
        decreases n - i,
    {
        i = i + 1;
    }
    proof {
        lemma_find_char_at(target@, '?', i as int);
    }
    if i < n {
        let r = string_from_range(&cs, i + 1, n);
        assert(r@ =~= target@.skip(i + 1));
        r
    } else {
        String::new()
    }
}

/// The page text for an accepted login.
pub open spec fn authorized_body() -> Seq<char> {
    "envsynx CLI is authorized. You can close this tab and return to your terminal."@
}

/// The page text for a callback without a token.
pub open spec fn missing_token_body() -> Seq<char> {
    "Missing token in callback. Return to the terminal and try again."@
}

/// The page text for a callback whose state does not match.
pub open spec fn invalid_state_body() -> Seq<char> {
    "Invalid login state. Return to the terminal and try again."@
}

/// The first decodable value of `key` in the query `query`.
pub open spec fn query_value_spec(query: Seq<char>, key: Seq<char>) -> Option<Seq<char>> {
    first_decoded(values_for(split_on(query, '&'), key))
}

/// The answer to a browser callback: the HTTP status and page text sent
/// back, and the token that the login keeps, if any.
pub struct CallbackReply {
    pub status: String,
    pub body: String,
    pub token: Option<String>,
}

/// Whether `r` answers a callback whose query is `query` for a login
/// that sent the state `state`: the token is accepted only where the
/// query's `state` equals `state`; a matching state without a token and a
/// state that does not match are refused with their own pages.
pub open spec fn reply_spec(query: Seq<char>, state: Seq<char>, r: CallbackReply) -> bool {
    let returned = query_value_spec(query, "state"@);
    let token = query_value_spec(query, "token"@);
    if returned == Some(state) {
        match token {
            Some(t) => {
                &&& r.status@ == "200 OK"@
                &&& r.body@ == authorized_body()
                &&& r.token matches Some(x) && x@ == t
            },
            None => r.status@ == "400 Bad Request"@ && r.body@ == missing_token_body()
                && r.token is None,
        }
    } else {
        r.status@ == "400 Bad Request"@ && r.body@ == invalid_state_body() && r.token is None
    }
}

/// A callback reply keeps a token only where the query's `state` is the
/// state the login sent, and then the token is the query's `token`.
pub proof fn lemma_token_needs_matching_state(query: Seq<char>, state: Seq<char>, r: CallbackReply)
    requires
        reply_spec(query, state, r),
    ensures
        r.token is Some ==> query_value_spec(query, "state"@) == Some(state) && query_value_spec(
            query,
            "token"@,
        ) == Some(r.token->0@),
{
}

/// The reply to a callback: a token is kept exactly when the query's
/// `state` is the login's state and the query has a `token`, and then the
/// status is `200 OK`; a state that does not match is answered `400 Bad
/// Request` with the invalid-state page, a matching state without token
/// `400 Bad Request` with the missing-token page.
pub proof fn lemma_reply_outcomes(query: Seq<char>, state: Seq<char>, r: CallbackReply)
    requires
        reply_spec(query, state, r),
    ensures
        r.token is Some <==> (query_value_spec(query, "state"@) == Some(state) && query_value_spec(
            query,
            "token"@,
        ) is Some),
        r.token is Some ==> r.status@ == "200 OK"@ && r.body@
            == "envsynx CLI is authorized. You can close this tab and return to your terminal."@,
        query_value_spec(query, "state"@) != Some(state) ==> r.status@ == "400 Bad Request"@
            && r.body@ == "Invalid login state. Return to the terminal and try again."@,
        query_value_spec(query, "state"@) == Some(state) && query_value_spec(query, "token"@) is None
            ==> r.status@ == "400 Bad Request"@ && r.body@
            == "Missing token in callback. Return to the terminal and try again."@,
{
}

/// The message when the callback request cannot be read.
pub open spec fn unreadable_callback_message() -> Seq<char> {
    "Could not read browser callback."@
}

/// Reads the browser's callback request `request` for a login that sent
/// the state `state`. Fails where the request has no target; otherwise
/// decides from the `state` and `token` query parameters what is sent
/// back and which token is kept.
pub fn callback_reply(request: &str, state: &str) -> (r: Result<CallbackReply, String>)
    ensures
        match request_target_spec(request@) {
            None => r matches Err(m) && m@ == unreadable_callback_message(),
            Some(t) => r matches Ok(reply) && reply_spec(query_part(t), state@, reply),
        },
{
    let target = match request_target(request) {
        Some(t) => t,
        None => {
            return Err(String::from_str("Could not read browser callback."));
        },
    };
    let query = query_of(target.as_str());
    let returned = query_value(query.as_str(), "state");
    let token = query_value(query.as_str(), "token");
    let state_ok = match &returned {
        Some(s) => str_eq(s.as_str(), state),
        None => false,
    };
    if state_ok {
        match token {
            Some(t) => Ok(
                CallbackReply {
                    status: String::from_str("200 OK"),
                    body: String::from_str(
                        "envsynx CLI is authorized. You can close this tab and return to your terminal.",
                    ),
                    token: Some(t),
                },
            ),
            None => Ok(
                CallbackReply {
                    status: String::from_str("400 Bad Request"),
                    body: String::from_str(
                        "Missing token in callback. Return to the terminal and try again.",
                    ),
                    token: None,
                },
            ),
        }
    } else {
        Ok(
            CallbackReply {
                status: String::from_str("400 Bad Request"),
                body: String::from_str("Invalid login state. Return to the terminal and try again."),
                token: None,
            },
        )
    }
}

/// The message when the callback gave no valid token.
pub open spec fn no_token_message() -> Seq<char> {
    "Authorization did not return a valid token."@
}

impl CallbackReply {
    /// The token the login keeps, or the error that ends it.
    pub fn into_token(self) -> (r: Result<String, String>)
        ensures
            match self.token {
                Some(t) => r == Ok::<String, String>(t),
                None => r matches Err(m) && m@ == no_token_message(),
            },
    {
        match self.token {
            Some(t) => Ok(t),
            None => Err(String::from_str("Authorization did not return a valid token.")),
        }
    }
}

/// The HTML page around the text `body`.
pub open spec fn page_spec(body: Seq<char>) -> Seq<char> {
    "<!doctype html><meta charset=\"utf-8\"><title>envsynx CLI</title><body>"@ + body
        + "</body>"@
}

/// The byte length of `s` in UTF-8, as `str::len` reports it.
pub open spec fn byte_len(s: Seq<char>) -> nat {
    (encode_utf8(s).len() as usize) as nat
}

/// The HTTP response sent to the browser: the status line, the headers
/// with the page's byte length, and the page.
pub open spec fn http_response_spec(status: Seq<char>, body: Seq<char>) -> Seq<char> {
    "HTTP/1.1 "@ + status
        + "\r\nContent-Type: text/html; charset=utf-8\r\nContent-Length: "@
        + decimal(byte_len(page_spec(body))) + "\r\nConnection: close\r\n\r\n"@
        + page_spec(body)
}

/// The HTTP response that answers the browser with `status` and a page
/// showing `body`.
pub fn http_response(status: &str, body: &str) -> (r: String)
    ensures
        r@ == http_response_spec(status@, body@),
{
    let html = String::from_str(
        "<!doctype html><meta charset=\"utf-8\"><title>envsynx CLI</title><body>",
    ).concat(body).concat("</body>");
    let len = html.as_str().len();
    let l = decimal_string(len as u128);
    String::from_str("HTTP/1.1 ").concat(status).concat(
        "\r\nContent-Type: text/html; charset=utf-8\r\nContent-Length: ",
    ).concat(l.as_str()).concat("\r\nConnection: close\r\n\r\n").concat(html.as_str())
}

} // verus!
