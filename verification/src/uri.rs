//! Text inside addresses and forms.
use vstd::prelude::*;
use vstd::utf8::{encode_scalar, encode_utf8, encode_utf8_decode_utf8, encode_utf8_valid_utf8};
use crate::search::{join, joined};
use crate::split::{cut_once, index_of_char_is, pieces, pieces_of_sum, split_char, split_once};
use crate::stream::{lossy, lossy_text};
use crate::text::{concat3, views};

verus! {

/// Whether `c` may stand in an address as it is.
pub open spec fn is_unreserved(c: char) -> bool {
    ||| 'A' <= c <= 'Z'
    ||| 'a' <= c <= 'z'
    ||| '0' <= c <= '9'
    ||| c == '-'
    ||| c == '_'
    ||| c == '.'
    ||| c == '~'
}

// ── Writing ───────────────────────────────────────────────────────────────────

/// Whether a byte stands in an address as it is.
pub open spec fn stands_as_is(b: u8) -> bool {
    ||| 65 <= b <= 90
    ||| 97 <= b <= 122
    ||| 48 <= b <= 57
    ||| b == 45
    ||| b == 95
    ||| b == 46
    ||| b == 126
}

/// The hexadecimal digit of `n`, in upper case, for `n` below sixteen.
pub open spec fn upper_hex(n: u8) -> u8 {
    if n < 10 {
        (48 + n) as u8
    } else {
        (55 + n) as u8
    }
}

/// A byte in an address.
pub open spec fn percent_byte(b: u8) -> Seq<u8> {
    if stands_as_is(b) {
        seq![b]
    } else {
        seq![37u8, upper_hex(b / 16), upper_hex(b % 16)]
    }
}

/// Bytes in an address.
pub open spec fn percent_bytes(bytes: Seq<u8>) -> Seq<u8>
    decreases bytes.len(),
{
    if bytes.len() == 0 {
        seq![]
    } else {
        percent_bytes(bytes.drop_last()) + percent_byte(bytes.last())
    }
}

/// The characters with the numbers of the bytes.
pub open spec fn ascii_text(bytes: Seq<u8>) -> Seq<char> {
    bytes.map_values(|b: u8| b as char)
}

/// A text in an address: its bytes, each as it is or as a percent sign and two digits.
pub open spec fn url_encoded(s: Seq<char>) -> Seq<char> {
    ascii_text(percent_bytes(encode_utf8(s)))
}

/// The hexadecimal digit of `n`, in upper case.
fn hex_byte(n: u8) -> (r: u8)
    requires
        n < 16,
    ensures
        r == upper_hex(n),
{
    if n < 10 {
        48 + n
    } else {
        55 + n
    }
}

/// A text in an address.
pub fn urlencode(s: &str) -> (r: String)
    ensures
        r@ == url_encoded(s@),
{
    let bytes = s.as_bytes();
    let ghost all = encode_utf8(s@);
    let mut out = String::new();
    let mut i: usize = 0;
    assert(all.take(0) =~= seq![]);
    assert(out@ =~= ascii_text(percent_bytes(all.take(0))));
    while i < bytes.len()
        invariant
            i <= bytes.len(),
            bytes@ == all,
            out@ == ascii_text(percent_bytes(all.take(i as int))),
        decreases bytes.len() - i,
    {
        let b = bytes[i];
        let ghost before = out@;
        assert(all.take(i + 1).drop_last() =~= all.take(i as int));
        assert(all.take(i + 1).last() == b);
        if (65 <= b && b <= 90) || (97 <= b && b <= 122) || (48 <= b && b <= 57) || b == 45 || b
            == 95 || b == 46 || b == 126 {
            out.push(b as char);
            assert(out@ =~= before + ascii_text(percent_byte(b)));
        } else {
            out.push('%');
            out.push(hex_byte(b / 16) as char);
            out.push(hex_byte(b % 16) as char);
            assert(out@ =~= before + ascii_text(percent_byte(b)));
        }
        assert(ascii_text(percent_bytes(all.take(i + 1))) =~= ascii_text(
            percent_bytes(all.take(i as int)),
        ) + ascii_text(percent_byte(b)));
        i = i + 1;
    }
    assert(all.take(i as int) =~= all);
    out
}

/// A pair in a form.
pub open spec fn form_pair(k: Seq<char>, v: Seq<char>) -> Seq<char> {
    url_encoded(k) + "="@ + url_encoded(v)
}

/// The pairs of a form, one behind the other.
pub open spec fn form_text(pairs: Seq<(Seq<char>, Seq<char>)>) -> Seq<char> {
    joined(pairs.map_values(|p: (Seq<char>, Seq<char>)| form_pair(p.0, p.1)), "&"@)
}

/// The views of a list of pairs.
pub open spec fn str_pairs(pairs: Seq<(&str, &str)>) -> Seq<(Seq<char>, Seq<char>)> {
    pairs.map_values(|p: (&str, &str)| (p.0@, p.1@))
}

/// The pairs of a form.
pub fn form_urlencoded(pairs: &Vec<(&str, &str)>) -> (r: String)
    ensures
        r@ == form_text(str_pairs(pairs@)),
{
    let ghost want = str_pairs(pairs@).map_values(
        |p: (Seq<char>, Seq<char>)| form_pair(p.0, p.1),
    );
    let mut parts: Vec<String> = Vec::new();
    let mut i: usize = 0;
    while i < pairs.len()
        invariant
            i <= pairs.len(),
            parts@.len() == i,
            want == str_pairs(pairs@).map_values(
                |p: (Seq<char>, Seq<char>)| form_pair(p.0, p.1),
            ),
            forall|j: int| 0 <= j < i ==> (#[trigger] parts@[j])@ == want[j],
        decreases pairs.len() - i,
    {
        let p = pairs[i];
        let part = concat3(urlencode(p.0).as_str(), "=", urlencode(p.1).as_str());
        assert(part@ == want[i as int]);
        parts.push(part);
        i = i + 1;
    }
    assert(views(parts@) =~= want);
    join(&parts, "&")
}

// ── Reading ───────────────────────────────────────────────────────────────────

/// The value of a hexadecimal digit.
pub open spec fn hex_value(b: u8) -> Option<u8> {
    if 48 <= b <= 57 {
        Some((b - 48) as u8)
    } else if 65 <= b <= 70 {
        Some((b - 55) as u8)
    } else if 97 <= b <= 102 {
        Some((b - 87) as u8)
    } else {
        None
    }
}

/// The byte that two hexadecimal digits behind a percent sign denote.
pub open spec fn hex_pair(a: u8, b: u8) -> Option<u8> {
    match hex_value(b) {
        None => None,
        Some(low) => match hex_value(a) {
            Some(high) => Some((high * 16 + low) as u8),
            None => None,
        },
    }
}

/// The bytes that a text in an address stands for: a plus sign for a space, a percent sign with
/// two hexadecimal digits for a byte, everything else for itself, a percent sign without two such
/// digits too.
pub open spec fn percent_decoded(s: Seq<u8>) -> Seq<u8>
    decreases s.len(),
{
    if s.len() == 0 {
        seq![]
    } else if s[0] == 43 {
        seq![32u8] + percent_decoded(s.skip(1))
    } else if s[0] == 37 && s.len() > 2 && hex_pair(s[1], s[2]) is Some {
        seq![hex_pair(s[1], s[2])->0] + percent_decoded(s.skip(3))
    } else {
        seq![s[0]] + percent_decoded(s.skip(1))
    }
}

/// The text that a text in an address stands for.
pub open spec fn url_decoded(s: Seq<char>) -> Seq<char> {
    lossy(percent_decoded(encode_utf8(s)))
}

/// The value of a hexadecimal digit.
fn digit_value(b: u8) -> (r: Option<u8>)
    ensures
        r == hex_value(b),
{
    if 48 <= b && b <= 57 {
        Some(b - 48)
    } else if 65 <= b && b <= 70 {
        Some(b - 55)
    } else if 97 <= b && b <= 102 {
        Some(b - 87)
    } else {
        None
    }
}

/// The byte that two characters behind a percent sign denote.
fn pair_value(a: u8, b: u8) -> (r: Option<u8>)
    ensures
        r == hex_pair(a, b),
{
    match digit_value(b) {
        None => None,
        Some(low) => match digit_value(a) {
            Some(high) => {
                let v: u8 = high * 16 + low;
                Some(v)
            },
            None => None,
        },
    }
}

/// The bytes that a text in an address stands for.
pub fn decode_percent(bytes: &[u8]) -> (r: Vec<u8>)
    ensures
        r@ == percent_decoded(bytes@),
{
    let mut out: Vec<u8> = Vec::new();
    let mut i: usize = 0;
    let n = bytes.len();
    assert(bytes@.skip(0) =~= bytes@);
    assert(out@ + percent_decoded(bytes@) =~= percent_decoded(bytes@));
    while i < n
        invariant
            i <= n == bytes@.len(),
            out@ + percent_decoded(bytes@.skip(i as int)) == percent_decoded(bytes@),
        decreases n - i,
    {
        let ghost rest = bytes@.skip(i as int);
        let ghost before = out@;
        assert(rest.skip(1) =~= bytes@.skip(i + 1));
        if bytes[i] == 43 {
            out.push(32);
            assert(out@ + percent_decoded(bytes@.skip(i + 1)) =~= before + percent_decoded(rest));
            i = i + 1;
            continue;
        }
        if bytes[i] == 37 && n - i > 2 {
            assert(rest[1] == bytes@[i + 1]);
            assert(rest[2] == bytes@[i + 2]);
            if let Some(b) = pair_value(bytes[i + 1], bytes[i + 2]) {
                out.push(b);
                assert(rest.skip(3) =~= bytes@.skip(i + 3));
                assert(out@ + percent_decoded(bytes@.skip(i + 3)) =~= before + percent_decoded(
                    rest,
                ));
                i = i + 3;
                continue;
            }
        }
        out.push(bytes[i]);
        assert(out@ + percent_decoded(bytes@.skip(i + 1)) =~= before + percent_decoded(rest));
        i = i + 1;
    }
    assert(percent_decoded(bytes@.skip(i as int)) =~= seq![]);
    assert(out@ =~= percent_decoded(bytes@));
    out
}

/// The text that a text in an address stands for.
pub fn url_decode(s: &str) -> (r: String)
    ensures
        r@ == url_decoded(s@),
{
    let bytes = decode_percent(s.as_bytes());
    lossy_text(&bytes)
}

/// A pair of a query: what stands before the first equals sign and what stands behind it.
pub open spec fn query_pair(part: Seq<char>) -> (Seq<char>, Seq<char>) {
    match cut_once(part, '=') {
        Some((k, v)) => (url_decoded(k), url_decoded(v)),
        None => (url_decoded(part), url_decoded(""@)),
    }
}

/// The pairs of a query, in order.
pub open spec fn query_pairs(query: Seq<char>) -> Seq<(Seq<char>, Seq<char>)> {
    pieces(query, '&').map_values(|p: Seq<char>| query_pair(p))
}

/// The views of a list of pairs.
pub open spec fn pair_views(pairs: Seq<(String, String)>) -> Seq<(Seq<char>, Seq<char>)> {
    pairs.map_values(|p: (String, String)| (p.0@, p.1@))
}

/// The pairs of a query, in order.
pub fn parse_query(query: &str) -> (r: Vec<(String, String)>)
    ensures
        pair_views(r@) == query_pairs(query@),
{
    let parts = split_char(query, '&');
    let ghost want = query_pairs(query@);
    let mut out: Vec<(String, String)> = Vec::new();
    let mut i: usize = 0;
    while i < parts.len()
        invariant
            i <= parts.len(),
            views(parts@) == pieces(query@, '&'),
            want == query_pairs(query@),
            out@.len() == i,
            forall|j: int|
                0 <= j < i ==> ((#[trigger] out@[j]).0@, out@[j].1@) == want[j],
        decreases parts.len() - i,
    {
        assert(views(parts@)[i as int] == parts@[i as int]@);
        let pair = match split_once(parts[i].as_str(), '=') {
            Some((k, v)) => (url_decode(k.as_str()), url_decode(v.as_str())),
            None => (url_decode(parts[i].as_str()), url_decode("")),
        };
        assert((pair.0@, pair.1@) == want[i as int]);
        out.push(pair);
        i = i + 1;
    }
    assert(pair_views(out@) =~= want);
    out
}

// ── Laws ──────────────────────────────────────────────────────────────────────

/// A byte of which the number is below the half is encoded as itself.
proof fn ascii_scalar(b: u8)
    requires
        b < 128,
    ensures
        encode_scalar((b as char) as u32) == seq![b],
{
    let c = (b as char) as u32;
    assert(c == b as u32);
    assert(0 <= c <= 0x7f);
    assert((c & 0x7f) as u8 == c as u8) by (bit_vector)
        requires
            c <= 0x7f,
    ;
    assert(c as u8 == b) by (bit_vector)
        requires
            c == b as u32,
    ;
    assert(encode_scalar(c) =~= seq![b]);
}

/// Texts made of such bytes are encoded as those bytes.
pub proof fn ascii_text_bytes(bytes: Seq<u8>)
    requires
        forall|i: int| 0 <= i < bytes.len() ==> #[trigger] bytes[i] < 128,
    ensures
        encode_utf8(ascii_text(bytes)) == bytes,
    decreases bytes.len(),
{
    let t = ascii_text(bytes);
    if bytes.len() > 0 {
        let rest = bytes.drop_first();
        assert forall|i: int| 0 <= i < rest.len() implies #[trigger] rest[i] < 128 by {
            assert(rest[i] == bytes[i + 1]);
        }
        ascii_text_bytes(rest);
        ascii_scalar(bytes[0]);
        assert(t.drop_first() =~= ascii_text(rest));
        assert(bytes =~= seq![bytes[0]] + rest);
    }
}

proof fn percent_bytes_are_ascii(bytes: Seq<u8>)
    ensures
        forall|i: int| 0 <= i < percent_bytes(bytes).len() ==> #[trigger] percent_bytes(bytes)[i]
            < 128,
    decreases bytes.len(),
{
    if bytes.len() > 0 {
        percent_bytes_are_ascii(bytes.drop_last());
        let a = percent_bytes(bytes.drop_last());
        let p = percent_byte(bytes.last());
        assert(bytes.last() / 16 < 16);
        assert(bytes.last() % 16 < 16);
        assert forall|i: int| 0 <= i < percent_bytes(bytes).len() implies #[trigger] percent_bytes(
            bytes,
        )[i] < 128 by {
            if i < a.len() {
                assert(percent_bytes(bytes)[i] == a[i]);
            } else {
                assert(percent_bytes(bytes)[i] == p[i - a.len()]);
            }
        }
    }
}

/// Encoding bytes from the front.
proof fn percent_bytes_first(bytes: Seq<u8>)
    requires
        bytes.len() > 0,
    ensures
        percent_bytes(bytes) == percent_byte(bytes[0]) + percent_bytes(bytes.drop_first()),
    decreases bytes.len(),
{
    let rest = bytes.drop_first();
    if bytes.len() == 1 {
        assert(bytes.drop_last() =~= seq![]);
        assert(rest =~= seq![]);
        assert(percent_bytes(bytes.drop_last()) =~= seq![]);
        assert(percent_bytes(bytes) =~= percent_byte(bytes[0]) + percent_bytes(rest));
    } else {
        percent_bytes_first(bytes.drop_last());
        assert(bytes.drop_last().drop_first() =~= rest.drop_last());
        assert(bytes.drop_last()[0] == bytes[0]);
        assert(percent_bytes(bytes) =~= percent_byte(bytes[0]) + percent_bytes(rest));
    }
}

proof fn hex_pair_of_byte(b: u8)
    ensures
        hex_pair(upper_hex(b / 16), upper_hex(b % 16)) == Some(b),
{
    assert(b / 16 < 16);
    assert(b % 16 < 16);
    assert(b == (b / 16) * 16 + b % 16);
}

/// Bytes are read back from their form in an address.
pub proof fn percent_round_trip(bytes: Seq<u8>)
    ensures
        percent_decoded(percent_bytes(bytes)) == bytes,
    decreases bytes.len(),
{
    if bytes.len() > 0 {
        let rest = bytes.drop_first();
        let b = bytes[0];
        percent_round_trip(rest);
        percent_bytes_first(bytes);
        let e = percent_bytes(bytes);
        let tail = percent_bytes(rest);
        if stands_as_is(b) {
            assert(e[0] == b);
            assert(e.skip(1) =~= tail);
        } else {
            hex_pair_of_byte(b);
            assert(e[0] == 37);
            assert(e[1] == upper_hex(b / 16));
            assert(e[2] == upper_hex(b % 16));
            assert(e.skip(3) =~= tail);
        }
        assert(percent_decoded(e) =~= seq![b] + percent_decoded(tail));
        assert(bytes =~= seq![b] + rest);
    }
}

/// Every text is read back from its form in an address.
pub proof fn url_round_trip(s: Seq<char>)
    ensures
        url_decoded(url_encoded(s)) == s,
{
    let bytes = encode_utf8(s);
    percent_bytes_are_ascii(bytes);
    ascii_text_bytes(percent_bytes(bytes));
    percent_round_trip(bytes);
    encode_utf8_valid_utf8(s);
    encode_utf8_decode_utf8(s);
}

/// The form of a text in an address is made of unreserved characters and percent signs.
pub proof fn url_encoded_is_safe(s: Seq<char>, i: int)
    requires
        0 <= i < url_encoded(s).len(),
    ensures
        is_unreserved(url_encoded(s)[i]) || url_encoded(s)[i] == '%',
{
    percent_bytes_are_safe(encode_utf8(s), i);
}

proof fn percent_bytes_are_safe(bytes: Seq<u8>, i: int)
    requires
        0 <= i < percent_bytes(bytes).len(),
    ensures
        stands_as_is(percent_bytes(bytes)[i]) || percent_bytes(bytes)[i] == 37,
    decreases bytes.len(),
{
    let a = percent_bytes(bytes.drop_last());
    let p = percent_byte(bytes.last());
    assert(bytes.last() / 16 < 16);
    assert(bytes.last() % 16 < 16);
    if i < a.len() {
        percent_bytes_are_safe(bytes.drop_last(), i);
        assert(percent_bytes(bytes)[i] == a[i]);
    } else {
        assert(percent_bytes(bytes)[i] == p[i - a.len()]);
    }
}

/// Every form that has a pair is read back: the pairs of a query are those that it was made of.
pub proof fn form_reads_back(pairs: Seq<(Seq<char>, Seq<char>)>)
    requires
        pairs.len() > 0,
    ensures
        query_pairs(form_text(pairs)) == pairs,
{
    let parts = pairs.map_values(|p: (Seq<char>, Seq<char>)| form_pair(p.0, p.1));
    assert forall|i: int| 0 <= i < parts.len() implies !(#[trigger] parts[i]).contains('&') by {
        form_pair_reads_back(pairs[i].0, pairs[i].1);
    }
    reveal_strlit("&");
    assert("&"@ =~= seq!['&']);
    pieces_of_joined_by(parts, '&');
    let read = query_pairs(form_text(pairs));
    assert forall|i: int| 0 <= i < pairs.len() implies #[trigger] read[i] == pairs[i] by {
        form_pair_reads_back(pairs[i].0, pairs[i].1);
        assert(parts[i] == form_pair(pairs[i].0, pairs[i].1));
    }
    assert(read =~= pairs);
}

proof fn form_pair_reads_back(k: Seq<char>, v: Seq<char>)
    ensures
        query_pair(form_pair(k, v)) == (k, v),
        !form_pair(k, v).contains('&'),
{
    reveal_strlit("=");
    let a = url_encoded(k);
    let b = url_encoded(v);
    let s = form_pair(k, v);
    assert forall|i: int| 0 <= i < a.len() implies a[i] != '=' && a[i] != '&' by {
        url_encoded_is_safe(k, i);
    }
    assert forall|i: int| 0 <= i < b.len() implies b[i] != '&' by {
        url_encoded_is_safe(v, i);
    }
    assert forall|i: int| 0 <= i < s.len() implies s[i] != '&' by {
        if i > a.len() {
            assert(s[i] == b[i - a.len() - 1]);
        } else if i < a.len() {
            assert(s[i] == a[i]);
        }
    }
    assert forall|i: int| 0 <= i < a.len() implies s[i] != '=' by {
        assert(s[i] == a[i]);
    }
    index_of_char_is(s, '=', a.len() as int);
    assert(s.take(a.len() as int) =~= a);
    assert(s.skip(a.len() as int + 1) =~= b);
    url_round_trip(k);
    url_round_trip(v);
}

/// Texts that were joined with a separator, which none of them holds, are cut apart again.
pub proof fn pieces_of_joined_by(parts: Seq<Seq<char>>, sep: char)
    requires
        parts.len() > 0,
        forall|i: int| 0 <= i < parts.len() ==> !(#[trigger] parts[i]).contains(sep),
    ensures
        pieces(joined(parts, seq![sep]), sep) == parts,
    decreases parts.len(),
{
    let last = parts.last();
    assert(!parts[parts.len() - 1].contains(sep));
    index_of_char_is(last, sep, last.len() as int);
    assert(pieces(last, sep) =~= seq![last]);
    if parts.len() > 1 {
        let front = parts.drop_last();
        assert forall|i: int| 0 <= i < front.len() implies !(#[trigger] front[i]).contains(
            sep,
        ) by {
            assert(front[i] == parts[i]);
        }
        pieces_of_joined_by(front, sep);
        let b = seq![sep] + last;
        assert(joined(parts, seq![sep]) =~= joined(front, seq![sep]) + b);
        pieces_of_sum(joined(front, seq![sep]), b, sep);
        let end = front.last();
        assert(!parts[parts.len() - 2].contains(sep));
        index_of_char_is(end + b, sep, end.len() as int);
        assert((end + b).take(end.len() as int) =~= end);
        assert((end + b).skip(end.len() as int + 1) =~= last);
        assert(pieces(end + b, sep) =~= seq![end, last]);
        assert(parts =~= front.drop_last() + seq![end, last]);
    } else {
        assert(parts =~= seq![last]);
    }
}

} // verus!
