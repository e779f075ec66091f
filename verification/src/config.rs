//! Where requests go and with which token: the API base URL and the CLI
//! token, chosen from the environment and the saved configuration.
use vstd::prelude::*;
use crate::text::{
    chars_of, trim_bounds, strip_trailing_bound, string_from_range, blank, trim, strip_trailing,
    is_blank, is_ws, lemma_trim_shape, lemma_strip_trailing_shape,
};

verus! {

/// `value.trim().trim_end_matches('/')`.
pub open spec fn trimmed_url(value: Seq<char>) -> Seq<char> {
    strip_trailing(trim(value), '/')
}

/// After removing every trailing `c`, the text does not end with `c`.
pub proof fn lemma_strip_trailing_last(s: Seq<char>, c: char)
    ensures
        strip_trailing(s, c).len() == 0 || strip_trailing(s, c).last() != c,
    decreases s.len(),
{
    if s.len() > 0 && s.last() == c {
        lemma_strip_trailing_last(s.drop_last(), c);
    }
}

/// `value` with surrounding whitespace and then every trailing `/`
/// removed; what the client does to an API base URL before it appends a
/// path. The result never ends with `/`.
pub fn trim_trailing_slash(value: &str) -> (r: String)
    ensures
        r@ == trimmed_url(value@),
        r@.len() == 0 || r@.last() != '/',
{
    let cs = chars_of(value);
    let (lo, hi) = trim_bounds(&cs);
    let h = strip_trailing_bound(&cs, lo, hi, '/');
    proof {
        lemma_strip_trailing_last(trim(value@), '/');
    }
    string_from_range(&cs, lo, h)
}

/// The message when no CLI token is set.
pub open spec fn missing_token_message() -> Seq<char> {
    "Missing CLI token. Run envsynx login --token <token> or set ENVSYNX_TOKEN."@
}

/// The token the client sends: the `ENVSYNX_TOKEN` value where it is not
/// blank, else the saved token where it is not blank.
pub open spec fn auth_token_spec(env_token: Option<String>, config_token: Option<String>) -> Option<
    String,
> {
    if env_token is Some && !is_blank(env_token->0@) {
        env_token
    } else if config_token is Some && !is_blank(config_token->0@) {
        config_token
    } else {
        None
    }
}

/// Chooses the CLI token from the `ENVSYNX_TOKEN` value and the saved
/// configuration's token (`None` where unset or unreadable). A blank value
/// counts as unset; the chosen token is returned as it is, untrimmed.
pub fn auth_token(env_token: Option<String>, config_token: Option<String>) -> (r: Result<
    String,
    String,
>)
    ensures
        match auth_token_spec(env_token, config_token) {
            Some(t) => r == Ok::<String, String>(t),
            None => r matches Err(m) && m@ == missing_token_message(),
        },
        r matches Ok(t) ==> !is_blank(t@),
        env_token is Some && !is_blank(env_token->0@) ==> r == Ok::<String, String>(env_token->0),
        (env_token is None || is_blank(env_token->0@)) && config_token is Some && !is_blank(
            config_token->0@,
        ) ==> r == Ok::<String, String>(config_token->0),
        (env_token is None || is_blank(env_token->0@)) && (config_token is None || is_blank(
            config_token->0@,
        )) ==> r is Err,
{
    if let Some(t) = env_token {
        if !blank(t.as_str()) {
            return Ok(t);
        }
    }
    if let Some(t) = config_token {
        if !blank(t.as_str()) {
            return Ok(t);
        }
    }
    Err(String::from_str("Missing CLI token. Run envsynx login --token <token> or set ENVSYNX_TOKEN."))
}

/// The API base URL used when neither the environment nor the
/// configuration names one.
pub open spec fn default_api_base_url() -> Seq<char> {
    "http://localhost:3000"@
}

/// The API base URL: the `ENVSYNX_API_BASE_URL` value where it is not
/// blank, else the saved one (blank or not), else the default; the first
/// two trimmed by `trimmed_url`.
pub open spec fn api_base_url_spec(env_url: Option<String>, config_url: Option<String>) -> Seq<
    char,
> {
    if env_url is Some && !is_blank(env_url->0@) {
        trimmed_url(env_url->0@)
    } else if config_url is Some {
        trimmed_url(config_url->0@)
    } else {
        default_api_base_url()
    }
}

/// Chooses the API base URL from the `ENVSYNX_API_BASE_URL` value and the
/// saved configuration's URL (`None` where unset or unreadable).
pub fn api_base_url(env_url: Option<String>, config_url: Option<String>) -> (r: String)
    ensures
        r@ == api_base_url_spec(env_url, config_url),
        r@.len() == 0 || r@.last() != '/',
        env_url is Some && !is_blank(env_url->0@) ==> r@ == strip_trailing(trim(env_url->0@), '/'),
        (env_url is None || is_blank(env_url->0@)) && config_url is Some ==> r@ == strip_trailing(
            trim(config_url->0@),
            '/',
        ),
        (env_url is None || is_blank(env_url->0@)) && config_url is None ==> r@
            == "http://localhost:3000"@,
{
    proof {
        reveal_strlit("http://localhost:3000");
    }
    if let Some(u) = &env_url {
        if !blank(u.as_str()) {
            return trim_trailing_slash(u.as_str());
        }
    }
    match config_url {
        Some(u) => trim_trailing_slash(u.as_str()),
        None => String::from_str("http://localhost:3000"),
    }
}

/// A non-blank `ENVSYNX_API_BASE_URL` is used, trimmed of surrounding
/// whitespace and then of trailing slashes, whatever the saved
/// configuration holds or whether there is one.
pub proof fn lemma_api_base_url_prefers_env(env_url: String, config_url: Option<String>)
    requires
        !is_blank(env_url@),
    ensures
        api_base_url_spec(Some(env_url), config_url) == strip_trailing(trim(env_url@), '/'),
{
}

/// Without a usable `ENVSYNX_API_BASE_URL` (unset or blank) the saved URL
/// is used, trimmed the same way, even where it is blank.
pub proof fn lemma_api_base_url_falls_back_to_config(env_url: Option<String>, config_url: String)
    requires
        env_url is None || is_blank(env_url->0@),
    ensures
        api_base_url_spec(env_url, Some(config_url)) == strip_trailing(trim(config_url@), '/'),
{
}

/// With neither a usable environment URL nor a saved one the URL is
/// `http://localhost:3000`.
pub proof fn lemma_api_base_url_default(env_url: Option<String>)
    requires
        env_url is None || is_blank(env_url->0@),
    ensures
        api_base_url_spec(env_url, None) == "http://localhost:3000"@,
{
}

/// The URL chosen from a text is that text with its surrounding whitespace
/// and then its trailing slashes removed: a run `value[i..j]` with only
/// whitespace before it, and only whitespace and `/` after it, not itself
/// ending in `/`.
pub proof fn lemma_trimmed_url_shape(value: Seq<char>)
    ensures
        exists|i: int, j: int|
            0 <= i <= j <= value.len() && trimmed_url(value) == value.subrange(i, j) && (forall|
                k: int,
            | 0 <= k < i ==> #[trigger] is_ws(value[k])) && (forall|k: int|
                j <= k < value.len() ==> #[trigger] is_ws(value[k]) || value[k] == '/'),
        trimmed_url(value).len() > 0 ==> !is_ws(trimmed_url(value)[0]) && trimmed_url(value).last()
            != '/',
{
    lemma_trim_shape(value);
    let t = trim(value);
    let (i, j) = choose|i: int, j: int|
        0 <= i <= j <= value.len() && trim(value) == value.subrange(i, j) && (forall|k: int|
            0 <= k < i ==> #[trigger] is_ws(value[k])) && (forall|k: int|
            j <= k < value.len() ==> #[trigger] is_ws(value[k]));
    lemma_strip_trailing_shape(t, '/');
    let m = choose|m: int|
        0 <= m <= t.len() && strip_trailing(t, '/') == t.take(m) && (forall|k: int|
            m <= k < t.len() ==> #[trigger] t[k] == '/');
    assert(t.take(m) =~= value.subrange(i, i + m));
    assert forall|k: int| i + m <= k < value.len() implies #[trigger] is_ws(value[k]) || value[k]
        == '/' by {
        if k < j {
            assert(value[k] == t[k - i]);
        }
    }
    if trimmed_url(value).len() > 0 {
        assert(trimmed_url(value)[0] == t[0]);
    }
}

/// A non-blank `ENVSYNX_TOKEN` is the token, as it is, whatever the saved
/// configuration holds.
pub proof fn lemma_auth_token_prefers_env(env_token: String, config_token: Option<String>)
    requires
        !is_blank(env_token@),
    ensures
        auth_token_spec(Some(env_token), config_token) == Some(env_token),
{
}

/// Without a usable `ENVSYNX_TOKEN` a non-blank saved token is the token.
pub proof fn lemma_auth_token_falls_back_to_config(env_token: Option<String>, config_token: String)
    requires
        env_token is None || is_blank(env_token->0@),
        !is_blank(config_token@),
    ensures
        auth_token_spec(env_token, Some(config_token)) == Some(config_token),
{
}

/// Where neither holds a non-blank token there is none.
pub proof fn lemma_auth_token_missing(env_token: Option<String>, config_token: Option<String>)
    requires
        env_token is None || is_blank(env_token->0@),
        config_token is None || is_blank(config_token->0@),
    ensures
        auth_token_spec(env_token, config_token) is None,
{
}

/// The URL of the API endpoint `path` under the base URL `base`.
pub fn endpoint_url(base: &str, path: &str) -> (r: String)
    ensures
        r@ == base@ + path@,
{
    String::from_str(base).concat(path)
}

} // verus!
