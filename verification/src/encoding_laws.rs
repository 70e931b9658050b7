//! How texts stand in addresses.
use vstd::prelude::*;
use crate::pkce::{b64_char, b64url, verifier_len, verifier_text};
use crate::split::index_of_char_is;
use crate::text_laws::cut_at_the_first;
use crate::uri::{ascii_text, hex_value, is_unreserved, percent_byte, percent_bytes,
    percent_decoded, query_pair, stands_as_is, url_decoded, url_encoded};

verus! {

/// Text of unreserved characters stands in an address as it is.
pub proof fn plain_text_stands_as_it_is(s: Seq<char>)
    requires
        forall|i: int| 0 <= i < s.len() ==> is_unreserved(#[trigger] s[i]),
    ensures
        url_encoded(s) == s,
{
    let bytes = s.map_values(|c: char| c as u8);
    assert forall|i: int| 0 <= i < s.len() implies ascii_text(bytes)[i] == #[trigger] s[i] by {
        assert(is_unreserved(s[i]));
    }
    assert(ascii_text(bytes) =~= s);
    assert forall|i: int| 0 <= i < bytes.len() implies #[trigger] bytes[i] < 128 && stands_as_is(
        bytes[i],
    ) by {
        assert(is_unreserved(s[i]));
    }
    crate::uri::ascii_text_bytes(bytes);
    bytes_stand(bytes);
}

proof fn bytes_stand(bytes: Seq<u8>)
    requires
        forall|i: int| 0 <= i < bytes.len() ==> stands_as_is(#[trigger] bytes[i]),
    ensures
        percent_bytes(bytes) == bytes,
    decreases bytes.len(),
{
    if bytes.len() > 0 {
        let front = bytes.drop_last();
        assert forall|i: int| 0 <= i < front.len() implies stands_as_is(#[trigger] front[i]) by {
            assert(front[i] == bytes[i]);
        }
        bytes_stand(front);
        assert(stands_as_is(bytes[bytes.len() - 1]));
        assert(bytes =~= front + seq![bytes.last()]);
    } else {
        assert(percent_bytes(bytes) =~= bytes);
    }
}

/// Every other byte stands there as a percent sign and its two digits in hexadecimal, the high one
/// first and in upper case.
pub proof fn other_bytes_are_named(b: u8)
    requires
        !stands_as_is(b),
    ensures
        percent_byte(b).len() == 3,
        percent_byte(b)[0] as char == '%',
        hex_value(percent_byte(b)[1]) matches Some(high) && (hex_value(
            percent_byte(b)[2],
        ) matches Some(low) && 16 * high + low == b),
        !(97 <= percent_byte(b)[1] <= 122),
        !(97 <= percent_byte(b)[2] <= 122),
{
    assert(b / 16 < 16);
    assert(b % 16 < 16);
}

/// Which bytes stand there as they are: letters, digits, and four signs.
pub proof fn unreserved_characters(b: u8)
    ensures
        stands_as_is(b) <==> {
            let c = b as char;
            ('a' <= c && c <= 'z') || ('A' <= c && c <= 'Z') || ('0' <= c && c <= '9') || c == '-'
                || c == '_' || c == '.' || c == '~'
        },
{
}

/// A plus sign is read as a space, a percent sign with two digits in hexadecimal, in upper or
/// lower case, as the byte that they denote, and what is neither as it stands.
pub proof fn bytes_are_read(high: u8, low: u8, rest: Seq<u8>, b: u8)
    ensures
        percent_decoded(seq!['+' as u8] + rest) == seq![' ' as u8] + percent_decoded(rest),
        hex_value(high) matches Some(x) ==> (hex_value(low) matches Some(y) ==> percent_decoded(
            seq!['%' as u8, high, low] + rest,
        ) == seq![(16 * x + y) as u8] + percent_decoded(rest)),
        b != '+' as u8 && b != '%' as u8 ==> percent_decoded(seq![b] + rest) == seq![b]
            + percent_decoded(rest),
        hex_value(high) is None || hex_value(low) is None ==> percent_decoded(
            seq!['%' as u8, high, low] + rest,
        ) == seq!['%' as u8] + percent_decoded(seq![high, low] + rest),
{
    assert((seq!['+' as u8] + rest).skip(1) =~= rest);
    assert((seq![b] + rest).skip(1) =~= rest);
    let s = seq!['%' as u8, high, low] + rest;
    assert(s[0] == 37);
    assert(s[1] == high);
    assert(s[2] == low);
    assert(s.skip(3) =~= rest);
    assert(s.skip(1) =~= seq![high, low] + rest);
}

/// The digits in hexadecimal and what they denote.
pub proof fn digits_in_hexadecimal(c: u8)
    ensures
        '0' as u8 <= c <= '9' as u8 ==> hex_value(c) == Some((c - '0' as u8) as u8),
        'a' as u8 <= c <= 'f' as u8 ==> hex_value(c) == Some((c - 'a' as u8 + 10) as u8),
        'A' as u8 <= c <= 'F' as u8 ==> hex_value(c) == Some((c - 'A' as u8 + 10) as u8),
        hex_value(c) is Some ==> hex_value(c)->0 < 16,
{
}

/// A part of a query without an equals sign is a name without a value; in one with several, the
/// first parts the name from the value.
pub proof fn a_name_stands_before_its_value(k: Seq<char>, v: Seq<char>)
    requires
        !k.contains('='),
    ensures
        query_pair(k) == (url_decoded(k), url_decoded(""@)),
        query_pair(k + seq!['='] + v) == (url_decoded(k), url_decoded(v)),
{
    cut_at_the_first(k, '=');
    let s = k + seq!['='] + v;
    index_of_char_is(s, '=', k.len() as int);
    assert(s.take(k.len() as int) =~= k);
    assert(s.skip(k.len() as int + 1) =~= v);
}

// ── Sixty-four characters ─────────────────────────────────────────────────────

/// The characters that stand for six bits each: letters, digits, a hyphen and an underscore.
pub open spec fn alphabet() -> Seq<char> {
    "ABCDEFGHIJKLMNOPQRSTUVWXYZabcdefghijklmnopqrstuvwxyz0123456789-_"@
}

/// What the character at a place of the alphabet is.
pub proof fn the_alphabet_is_in_order(n: nat)
    requires
        n < 64,
    ensures
        alphabet().len() == 64,
        n < 26 ==> alphabet()[n as int] as u32 == 'A' as u32 + n,
        26 <= n < 52 ==> alphabet()[n as int] as u32 == 'a' as u32 + (n - 26),
        52 <= n < 62 ==> alphabet()[n as int] as u32 == '0' as u32 + (n - 52),
        alphabet()[62] == '-',
        alphabet()[63] == '_',
{
    reveal_strlit("ABCDEFGHIJKLMNOPQRSTUVWXYZabcdefghijklmnopqrstuvwxyz0123456789-_");
}

proof fn characters_of_the_alphabet(n: nat)
    requires
        n < 64,
    ensures
        b64_char(n) == alphabet()[n as int],
{
    the_alphabet_is_in_order(n);
    if n < 26 {
        assert(b64_char(n) as u32 == 65 + n);
    } else if n < 52 {
        assert(b64_char(n) as u32 == 71 + n);
    } else if n < 62 {
        assert(b64_char(n) as u32 == n - 4);
    }
    same_number(b64_char(n), alphabet()[n as int]);
}

proof fn same_number(a: char, b: char)
    requires
        a as u32 == b as u32,
    ensures
        a == b,
{
}

/// Three bytes are written as four characters, whose places in the alphabet are the same number to
/// the base of sixty-four that the bytes are to the base of two hundred and fifty-six; the bytes
/// behind them follow in the same way.
pub proof fn three_bytes_make_four_characters(bytes: Seq<u8>) -> (d: (nat, nat, nat, nat))
    requires
        bytes.len() >= 3,
    ensures
        d.0 < 64 && d.1 < 64 && d.2 < 64 && d.3 < 64,
        d.0 * 262_144 + d.1 * 4_096 + d.2 * 64 + d.3 == bytes[0] * 65_536 + bytes[1] * 256
            + bytes[2],
        b64url(bytes) == seq![
            alphabet()[d.0 as int],
            alphabet()[d.1 as int],
            alphabet()[d.2 as int],
            alphabet()[d.3 as int],
        ] + b64url(bytes.skip(3)),
{
    let (x, y, z) = (bytes[0], bytes[1], bytes[2]);
    let d = (
        (x / 4) as nat,
        ((x % 4) * 16 + y / 16) as nat,
        ((y % 16) * 4 + z / 64) as nat,
        (z % 64) as nat,
    );
    characters_of_the_alphabet(d.0);
    characters_of_the_alphabet(d.1);
    characters_of_the_alphabet(d.2);
    characters_of_the_alphabet(d.3);
    d
}

/// A verifier has a character for every byte, by the last six bits of it; as many as were asked
/// for, but no fewer than forty-three and no more than one hundred and twenty-eight.
pub proof fn a_verifier_is_made_of_its_bytes(bytes: Seq<u8>, len: nat, i: int)
    requires
        0 <= i < bytes.len(),
    ensures
        verifier_text(bytes).len() == bytes.len(),
        verifier_text(bytes)[i] == alphabet()[bytes[i] as int % 64],
        43 <= verifier_len(len) <= 128,
        43 <= len <= 128 ==> verifier_len(len) == len,
        len < 43 ==> verifier_len(len) == 43,
        len > 128 ==> verifier_len(len) == 128,
{
    characters_of_the_alphabet((bytes[i] % 64) as nat);
}

} // verus!
