//! Percent-encoding through the `urlencoding` crate, splitting on a
//! separator, and query-string lookup.
use vstd::prelude::*;
use vstd::utf8::{
    encode_utf8, valid_utf8, decode_utf8, is_ascii_chars, is_ascii_chars_encode_utf8,
    encode_utf8_valid_utf8, encode_utf8_decode_utf8,
};
use crate::text::{chars_of, string_from_range, str_eq, digit_char};

verus! {

/// Bytes that `urlencoding::encode` leaves as they are: ASCII letters and
/// digits, `-`, `.`, `_` and `~`.
pub open spec fn is_unreserved(b: u8) -> bool {
    ||| 0x30 <= b <= 0x39
    ||| 0x41 <= b <= 0x5A
    ||| 0x61 <= b <= 0x7A
    ||| b == 0x2D
    ||| b == 0x2E
    ||| b == 0x5F
    ||| b == 0x7E
}

/// The upper-case hexadecimal digit for `d < 16`.
pub open spec fn hex_upper(d: u8) -> char {
    if d < 10 { digit_char(d as nat) }
    else if d == 10 { 'A' }
    else if d == 11 { 'B' }
    else if d == 12 { 'C' }
    else if d == 13 { 'D' }
    else if d == 14 { 'E' }
    else { 'F' }
}

/// Percent-encoding of a byte sequence: unreserved bytes stay as they are,
/// every other byte `b` becomes `%` and two upper-case hex digits.
pub open spec fn percent_encode(b: Seq<u8>) -> Seq<char>
    decreases b.len(),
{
    if b.len() == 0 {
        Seq::empty()
    } else {
        let x = b[0];
        let head = if is_unreserved(x) {
            seq![x as char]
        } else {
            seq!['%', hex_upper(x / 16), hex_upper(x % 16)]
        };
        head + percent_encode(b.drop_first())
    }
}

/// The value of a hexadecimal digit byte, either case.
pub open spec fn hex_value(b: u8) -> Option<u8> {
    if 0x30 <= b <= 0x39 {
        Some((b - 0x30) as u8)
    } else if 0x41 <= b <= 0x46 {
        Some((b - 0x41 + 10) as u8)
    } else if 0x61 <= b <= 0x66 {
        Some((b - 0x61 + 10) as u8)
    } else {
        None
    }
}

/// Percent-decoding of a byte sequence: `%` followed by two hex digits
/// becomes the byte they spell; every other byte, a lone `%` included,
/// stays as it is. `+` is not turned into a space.
pub open spec fn percent_decode(b: Seq<u8>) -> Seq<u8>
    decreases b.len(),
{
    if b.len() == 0 {
        Seq::empty()
    } else if b[0] == 0x25 && b.len() >= 3 && hex_value(b[1]) is Some && hex_value(b[2]) is Some {
        seq![(hex_value(b[1])->0 * 16 + hex_value(b[2])->0) as u8] + percent_decode(b.skip(3))
    } else {
        seq![b[0]] + percent_decode(b.drop_first())
    }
}

/// What percent-decoding `s` gives as text: `None` where the decoded bytes
/// are not UTF-8.
pub open spec fn url_decoded(s: Seq<char>) -> Option<Seq<char>> {
    let b = percent_decode(encode_utf8(s));
    if valid_utf8(b) {
        Some(decode_utf8(b))
    } else {
        None
    }
}

/// The bytes of a sequence of ASCII characters.
pub open spec fn ascii_bytes(cs: Seq<char>) -> Seq<u8> {
    cs.map_values(|c: char| c as u8)
}

/// A hex digit is ASCII and reads back as its value.
pub proof fn lemma_hex_digit(d: u8)
    requires
        d < 16,
    ensures
        '\0' <= hex_upper(d) <= '\u{7f}',
        hex_value(hex_upper(d) as u8) == Some(d),
        hex_upper(d) as u8 != 0x25,
        hex_upper(d) != '&' && hex_upper(d) != '=' && hex_upper(d) != '?',
{
}

/// A percent-encoding is ASCII text with no `&`, `=` or `?` in it.
pub proof fn lemma_percent_encode_ascii(b: Seq<u8>)
    ensures
        is_ascii_chars(percent_encode(b)),
        forall|i: int|
            0 <= i < percent_encode(b).len() ==> #[trigger] percent_encode(b)[i] != '&'
                && percent_encode(b)[i] != '=' && percent_encode(b)[i] != '?',
    decreases b.len(),
{
    if b.len() > 0 {
        let x = b[0];
        lemma_percent_encode_ascii(b.drop_first());
        if !is_unreserved(x) {
            lemma_hex_digit(x / 16);
            lemma_hex_digit(x % 16);
        }
        let head = if is_unreserved(x) {
            seq![x as char]
        } else {
            seq!['%', hex_upper(x / 16), hex_upper(x % 16)]
        };
        let pe = percent_encode(b);
        assert(pe == head + percent_encode(b.drop_first()));
        assert forall|i| 0 <= i < pe.len() implies '\0' <= #[trigger] pe[i] <= '\u{7f}' && pe[i]
            != '&' && pe[i] != '=' && pe[i] != '?' by {
            if i >= head.len() {
                assert(pe[i] == percent_encode(b.drop_first())[i - head.len()]);
            }
        }
    }
}

/// Percent-decoding undoes percent-encoding, byte for byte.
pub proof fn lemma_percent_decode_encode(b: Seq<u8>)
    ensures
        percent_decode(ascii_bytes(percent_encode(b))) == b,
    decreases b.len(),
{
    if b.len() == 0 {
        assert(ascii_bytes(percent_encode(b)) =~= Seq::<u8>::empty());
    } else {
        let x = b[0];
        let rest = b.drop_first();
        let pr = percent_encode(rest);
        lemma_percent_decode_encode(rest);
        if is_unreserved(x) {
            let bytes = ascii_bytes(seq![x as char] + pr);
            assert(bytes =~= seq![x] + ascii_bytes(pr));
            assert(bytes[0] == x);
            assert(bytes.drop_first() =~= ascii_bytes(pr));
            assert(percent_decode(bytes) == seq![x] + percent_decode(ascii_bytes(pr)));
            assert(percent_decode(bytes) =~= b);
        } else {
            lemma_hex_digit(x / 16);
            lemma_hex_digit(x % 16);
            let h1 = hex_upper(x / 16) as u8;
            let h2 = hex_upper(x % 16) as u8;
            let bytes = ascii_bytes(seq!['%', hex_upper(x / 16), hex_upper(x % 16)] + pr);
            assert(bytes =~= seq![0x25u8, h1, h2] + ascii_bytes(pr));
            assert(bytes.skip(3) =~= ascii_bytes(pr));
            assert(((x / 16) * 16 + x % 16) as u8 == x);
            assert(percent_decode(bytes) == seq![x] + percent_decode(ascii_bytes(pr)));
            assert(percent_decode(bytes) =~= b);
        }
    }
}

/// Decoding the percent-encoding of a text gives the text back: what
/// `urlencoding::decode` reads from what `urlencoding::encode` wrote.
pub proof fn lemma_decode_encode(s: Seq<char>)
    ensures
        url_decoded(percent_encode(encode_utf8(s))) == Some(s),
{
    let b = encode_utf8(s);
    let pe = percent_encode(b);
    lemma_percent_encode_ascii(b);
    is_ascii_chars_encode_utf8(pe);
    assert(encode_utf8(pe) =~= ascii_bytes(pe));
    lemma_percent_decode_encode(b);
    encode_utf8_valid_utf8(s);
    encode_utf8_decode_utf8(s);
}

/// `urlencoding::encode`: the percent-encoding of the UTF-8 bytes of `s`,
/// every byte but ASCII letters, digits, `-`, `.`, `_` and `~` written as
/// `%` and two upper-case hex digits.
#[verifier::external_body]
pub(crate) fn url_encode(s: &str) -> (r: String)
    ensures
        r@ == percent_encode(encode_utf8(s@)),
{
    urlencoding::encode(s).into_owned()
}

/// `urlencoding::decode`: percent-decodes the UTF-8 bytes of `s` and reads
/// the result as UTF-8, `None` where it is not.
#[verifier::external_body]
pub(crate) fn url_decode(s: &str) -> (r: Option<String>)
    ensures
        match r {
            Some(t) => url_decoded(s@) == Some(t@),
            None => url_decoded(s@) is None,
        },
{
    urlencoding::decode(s).ok().map(|t| t.into_owned())
}

/// Index of the first `c` in `s`, or `s.len()` where there is none.
pub open spec fn find_char(s: Seq<char>, c: char) -> nat
    decreases s.len(),
{
    if s.len() == 0 {
        0
    } else if s[0] == c {
        0
    } else {
        1 + find_char(s.drop_first(), c)
    }
}

/// `find_char` is the first index holding `c`.
pub proof fn lemma_find_char(s: Seq<char>, c: char)
    ensures
        find_char(s, c) <= s.len(),
        forall|j: int| 0 <= j < find_char(s, c) ==> s[j] != c,
        find_char(s, c) < s.len() ==> s[find_char(s, c) as int] == c,
    decreases s.len(),
{
    if s.len() > 0 && s[0] != c {
        lemma_find_char(s.drop_first(), c);
        assert forall|j: int| 0 <= j < find_char(s, c) implies s[j] != c by {
            if j > 0 {
                assert(s[j] == s.drop_first()[j - 1]);
            }
        }
    }
}

/// A position with no `c` before it and `c` (or the end) on it is
/// `find_char`.
pub proof fn lemma_find_char_at(s: Seq<char>, c: char, k: int)
    requires
        0 <= k <= s.len(),
        forall|j: int| 0 <= j < k ==> s[j] != c,
        k < s.len() ==> s[k] == c,
    ensures
        find_char(s, c) == k,
    decreases s.len(),
{
    if s.len() > 0 && k > 0 {
        assert forall|j: int| 0 <= j < k - 1 implies s.drop_first()[j] != c by {
            assert(s.drop_first()[j] == s[j + 1]);
        }
        lemma_find_char_at(s.drop_first(), c, k - 1);
    }
}

/// `str::split(c)`: the pieces of `s` between occurrences of `c`; there is
/// always at least one.
pub open spec fn split_on(s: Seq<char>, c: char) -> Seq<Seq<char>>
    decreases s.len(),
{
    let i = find_char(s, c);
    if i >= s.len() {
        seq![s]
    } else {
        seq![s.take(i as int)] + split_on(s.skip((i + 1) as int), c)
    }
}

/// The pieces `parts` joined with `c` between each two of them.
pub open spec fn join_with(parts: Seq<Seq<char>>, c: char) -> Seq<char>
    decreases parts.len(),
{
    if parts.len() == 0 {
        Seq::empty()
    } else if parts.len() == 1 {
        parts[0]
    } else {
        parts[0] + seq![c] + join_with(parts.drop_first(), c)
    }
}

/// Splitting at `c` gives at least one piece, none of the pieces holds
/// `c`, and joining them with `c` gives the text back.
pub proof fn lemma_split_on(s: Seq<char>, c: char)
    ensures
        split_on(s, c).len() >= 1,
        forall|k: int, j: int|
            0 <= k < split_on(s, c).len() && 0 <= j < split_on(s, c)[k].len() ==> #[trigger] split_on(
                s,
                c,
            )[k][j] != c,
        join_with(split_on(s, c), c) == s,
    decreases s.len(),
{
    lemma_find_char(s, c);
    let i = find_char(s, c);
    if i < s.len() {
        let rest = s.skip((i + 1) as int);
        lemma_split_on(rest, c);
        let parts = split_on(s, c);
        assert(parts == seq![s.take(i as int)] + split_on(rest, c));
        assert(parts.drop_first() =~= split_on(rest, c));
        assert forall|k: int, j: int|
            0 <= k < parts.len() && 0 <= j < parts[k].len() implies #[trigger] parts[k][j] != c by {
            if k > 0 {
                assert(parts[k] == split_on(rest, c)[k - 1]);
            }
        }
        assert(s =~= s.take(i as int) + seq![c] + rest);
    }
}

/// The pieces of `s` between occurrences of `c`, as `s.split(c)` yields
/// them.
pub fn split_str(s: &str, c: char) -> (parts: Vec<String>)
    ensures
        parts@.map_values(|p: String| p@) == split_on(s@, c),
{
    let cs = chars_of(s);
    let n = cs.len();
    let mut parts: Vec<String> = Vec::new();
    let mut start: usize = 0;
    let mut i: usize = 0;
    assert(s@.skip(0) =~= s@);
    assert(parts@.map_values(|p: String| p@) + split_on(s@, c) =~= split_on(s@, c));
    while i < n
        invariant
            cs@ == s@,
            n == cs@.len(),
            start <= i <= n,
            forall|j: int| start <= j < i ==> cs@[j] != c,
            parts@.map_values(|p: String| p@) + split_on(s@.skip(start as int), c) == split_on(
                s@,
                c,
            ),
        decreases n - i,
    {
        if cs[i] == c {
            let ghost t = s@.skip(start as int);
            proof {
                assert forall|j: int| 0 <= j < i - start implies t[j] != c by {
                    assert(t[j] == cs@[start + j]);
                }
                lemma_find_char_at(t, c, i - start);
                assert(t.take(i - start) =~= cs@.subrange(start as int, i as int));
                assert(t.skip(i - start + 1) =~= s@.skip(i + 1));
            }
            let piece = string_from_range(&cs, start, i);
            let ghost before = parts@.map_values(|p: String| p@);
            parts.push(piece);
            assert(parts@.map_values(|p: String| p@) =~= before.push(piece@));
            assert(split_on(t, c) == seq![t.take(i - start)] + split_on(t.skip(i - start + 1), c));
            assert(before.push(piece@) + split_on(s@.skip(i + 1), c) =~= before + split_on(t, c));
            start = i + 1;
        }
        i = i + 1;
    }
    let ghost t = s@.skip(start as int);
    proof {
        assert forall|j: int| 0 <= j < n - start implies t[j] != c by {
            assert(t[j] == cs@[start + j]);
        }
        lemma_find_char_at(t, c, n - start);
        assert(t =~= cs@.subrange(start as int, n as int));
    }
    let piece = string_from_range(&cs, start, n);
    let ghost before = parts@.map_values(|p: String| p@);
    parts.push(piece);
    assert(parts@.map_values(|p: String| p@) =~= before.push(piece@));
    assert(before.push(piece@) =~= before + split_on(t, c));
    parts
}

/// The value of a `name=value` piece whose name is `key`: the text after
/// the first `=`. `None` where the piece has no `=` or another name.
pub open spec fn pair_value(part: Seq<char>, key: Seq<char>) -> Option<Seq<char>> {
    let i = find_char(part, '=');
    if i >= part.len() {
        None
    } else if part.take(i as int) == key {
        Some(part.skip((i + 1) as int))
    } else {
        None
    }
}

/// The raw values that the pieces of `parts` give for `key`, in order.
pub open spec fn values_for(parts: Seq<Seq<char>>, key: Seq<char>) -> Seq<Seq<char>>
    decreases parts.len(),
{
    if parts.len() == 0 {
        Seq::empty()
    } else {
        let rest = values_for(parts.drop_last(), key);
        match pair_value(parts.last(), key) {
            Some(v) => rest.push(v),
            None => rest,
        }
    }
}

/// The first of `vals` that percent-decodes to UTF-8, decoded.
pub open spec fn first_decoded(vals: Seq<Seq<char>>) -> Option<Seq<char>>
    decreases vals.len(),
{
    if vals.len() == 0 {
        None
    } else {
        match url_decoded(vals[0]) {
            Some(v) => Some(v),
            None => first_decoded(vals.drop_first()),
        }
    }
}

/// Splits `part` at its first `=` and gives the value where the name is
/// `key`.
pub fn pair_value_of(part: &str, key: &str) -> (r: Option<String>)
    ensures
        match r {
            Some(v) => pair_value(part@, key@) == Some(v@),
            None => pair_value(part@, key@) is None,
        },
{
    let cs = chars_of(part);
    let n = cs.len();
    let mut i: usize = 0;
    while i < n && cs[i] != '='
        invariant
            cs@ == part@,
            n == cs@.len(),
            i <= n,
            forall|j: int| 0 <= j < i ==> cs@[j] != '=',
        decreases n - i,
    {
        i = i + 1;
    }
    proof {
        lemma_find_char_at(part@, '=', i as int);
    }
    if i >= n {
        return None;
    }
    let name = string_from_range(&cs, 0, i);
    assert(name@ =~= part@.take(i as int));
    if str_eq(name.as_str(), key) {
        let value = string_from_range(&cs, i + 1, n);
        assert(value@ =~= part@.skip(i + 1));
        Some(value)
    } else {
        None
    }
}

/// The raw (still encoded) values that the `&`-separated pieces of `query`
/// give for `key`, in the order they appear.
pub fn query_matches(query: &str, key: &str) -> (vals: Vec<String>)
    ensures
        vals@.map_values(|v: String| v@) == values_for(split_on(query@, '&'), key@),
{
    let parts = split_str(query, '&');
    let ghost ps = parts@.map_values(|p: String| p@);
    let mut vals: Vec<String> = Vec::new();
    let mut i: usize = 0;
    while i < parts.len()
        invariant
            ps == parts@.map_values(|p: String| p@),
            ps == split_on(query@, '&'),
            i <= parts@.len(),
            vals@.map_values(|v: String| v@) == values_for(ps.take(i as int), key@),
        decreases parts@.len() - i,
    {
        let ghost before = vals@.map_values(|v: String| v@);
        assert(ps.take(i + 1).drop_last() =~= ps.take(i as int));
        assert(ps.take(i + 1).last() == parts@[i as int]@);
        match pair_value_of(parts[i].as_str(), key) {
            Some(v) => {
                vals.push(v);
                assert(vals@.map_values(|v: String| v@) =~= before.push(v@));
            },
            None => {},
        }
        i = i + 1;
    }
    assert(ps.take(parts@.len() as int) =~= ps);
    vals
}

/// The first value that the `&`-separated pieces of `query` give for
/// `key` and that percent-decodes to UTF-8, decoded; as `query_value` in
/// the login callback reads `state` and `token`.
pub fn query_value(query: &str, key: &str) -> (r: Option<String>)
    ensures
        match r {
            Some(v) => first_decoded(values_for(split_on(query@, '&'), key@)) == Some(v@),
            None => first_decoded(values_for(split_on(query@, '&'), key@)) is None,
        },
{
    let vals = query_matches(query, key);
    decode_first(&vals)
}

/// The first of `vals` that percent-decodes to UTF-8, decoded.
pub fn decode_first(vals: &Vec<String>) -> (r: Option<String>)
    ensures
        match r {
            Some(v) => first_decoded(vals@.map_values(|v: String| v@)) == Some(v@),
            None => first_decoded(vals@.map_values(|v: String| v@)) is None,
        },
{
    let ghost vs = vals@.map_values(|v: String| v@);
    let mut i: usize = 0;
    assert(vs.skip(0) =~= vs);
    while i < vals.len()
        invariant
            vs == vals@.map_values(|v: String| v@),
            i <= vals@.len(),
            first_decoded(vs) == first_decoded(vs.skip(i as int)),
        decreases vals@.len() - i,
    {
        assert(vs.skip(i as int)[0] == vals@[i as int]@);
        assert(vs.skip(i as int).drop_first() =~= vs.skip(i + 1));
        match url_decode(vals[i].as_str()) {
            Some(v) => {
                return Some(v);
            },
            None => {},
        }
        i = i + 1;
    }
    None
}

/// `s` percent-encoded as `urlencoding::encode` does it.
pub fn encode(s: &str) -> (r: String)
    ensures
        r@ == percent_encode(encode_utf8(s@)),
{
    url_encode(s)
}

} // verus!
