//! Text inside markup.
use vstd::prelude::*;
use crate::text::{chars_of, concat3};

verus! {

/// The hexadecimal digit of `n`, for `n` below sixteen.
pub open spec fn hex_char(n: nat) -> char {
    if n < 10 {
        ((48 + n) as u8) as char
    } else {
        ((87 + n) as u8) as char
    }
}

/// Whether `u` is a control character that markup cannot hold.
pub open spec fn is_control(u: u32) -> bool {
    ||| 0x1 <= u <= 0x8
    ||| 0xb <= u <= 0xc
    ||| 0xe <= u <= 0x1f
    ||| 0x7f <= u <= 0x84
    ||| 0x86 <= u <= 0x9f
}

/// A control character in markup: its number in hexadecimal.
pub open spec fn control_ref(u: u32) -> Seq<char> {
    if u < 16 {
        "&#x"@ + seq![hex_char(u as nat), ';']
    } else {
        "&#x"@ + seq![hex_char((u / 16) as nat), hex_char((u % 16) as nat), ';']
    }
}

/// A character in markup.
pub open spec fn escaped_char(c: char) -> Seq<char> {
    if c == '&' {
        "&amp;"@
    } else if c == '<' {
        "&lt;"@
    } else if c == '>' {
        "&gt;"@
    } else if c == '\'' {
        "&apos;"@
    } else if c == '"' {
        "&quot;"@
    } else if is_control(c as u32) {
        control_ref(c as u32)
    } else {
        seq![c]
    }
}

/// A text in markup: nothing in it is read as markup.
pub open spec fn escaped(s: Seq<char>) -> Seq<char>
    decreases s.len(),
{
    if s.len() == 0 {
        seq![]
    } else {
        escaped(s.drop_last()) + escaped_char(s.last())
    }
}

/// The hexadecimal digit of `n`.
fn hex_of(n: u32) -> (r: char)
    requires
        n < 16,
    ensures
        r == hex_char(n as nat),
{
    if n < 10 {
        let b: u8 = 48 + n as u8;
        b as char
    } else {
        let b: u8 = 87 + n as u8;
        b as char
    }
}

/// Appends the character `c`, as markup has it.
fn push_escaped(out: &mut String, c: char)
    ensures
        final(out)@ == old(out)@ + escaped_char(c),
{
    let ghost before = out@;
    let u = c as u32;
    if c == '&' {
        out.push_str("&amp;");
    } else if c == '<' {
        out.push_str("&lt;");
    } else if c == '>' {
        out.push_str("&gt;");
    } else if c == '\'' {
        out.push_str("&apos;");
    } else if c == '"' {
        out.push_str("&quot;");
    } else if (0x1 <= u && u <= 0x8) || (0xb <= u && u <= 0xc) || (0xe <= u && u <= 0x1f) || (0x7f
        <= u && u <= 0x84) || (0x86 <= u && u <= 0x9f) {
        out.push_str("&#x");
        if u >= 16 {
            out.push(hex_of(u / 16));
        }
        out.push(hex_of(u % 16));
        out.push(';');
    } else {
        out.push(c);
    }
    assert(out@ =~= before + escaped_char(c));
}

/// A text in markup.
pub fn escape_markup(s: &str) -> (r: String)
    ensures
        r@ == escaped(s@),
{
    let chars = chars_of(s);
    let mut out = String::new();
    let mut i: usize = 0;
    assert(s@.take(0) =~= seq![]);
    while i < chars.len()
        invariant
            i <= chars.len(),
            chars@ == s@,
            out@ == escaped(s@.take(i as int)),
        decreases chars.len() - i,
    {
        push_escaped(&mut out, chars[i]);
        assert(s@.take(i + 1).drop_last() =~= s@.take(i as int));
        i = i + 1;
    }
    assert(s@.take(i as int) =~= s@);
    out
}

/// Escaped text holds none of the characters that open markup.
pub proof fn escaped_is_plain(s: Seq<char>)
    ensures
        !escaped(s).contains('<'),
        !escaped(s).contains('>'),
        !escaped(s).contains('"'),
        !escaped(s).contains('\''),
    decreases s.len(),
{
    if s.len() > 0 {
        let head = escaped(s.drop_last());
        let tail = escaped_char(s.last());
        escaped_is_plain(s.drop_last());
        reveal_strlit("&amp;");
        reveal_strlit("&lt;");
        reveal_strlit("&gt;");
        reveal_strlit("&apos;");
        reveal_strlit("&quot;");
        reveal_strlit("&#x");
        assert forall|i: int| 0 <= i < tail.len() implies tail[i] != '<' && tail[i] != '>'
            && tail[i] != '"' && tail[i] != '\'' by {
            let c = s.last();
            if c != '&' && c != '<' && c != '>' && c != '\'' && c != '"' && is_control(c as u32) {
                let u = c as u32;
                assert(u / 16 < 16);
                assert(u % 16 < 16);
            }
        }
        assert forall|i: int| 0 <= i < escaped(s).len() implies escaped(s)[i] != '<' && escaped(
            s,
        )[i] != '>' && escaped(s)[i] != '"' && escaped(s)[i] != '\'' by {
            if i < head.len() {
                assert(escaped(s)[i] == head[i]);
                assert(head.contains(head[i]));
            } else {
                assert(escaped(s)[i] == tail[i - head.len()]);
            }
        }
    }
}

/// An error in markup: red, with its text escaped.
pub open spec fn error_markup_of(s: Seq<char>) -> Seq<char> {
    "<span foreground=\"#e01b24\">"@ + escaped(s) + "</span>"@
}

/// An error in markup: red, with its text escaped.
pub fn error_markup(text: &str) -> (r: String)
    ensures
        r@ == error_markup_of(text@),
{
    concat3("<span foreground=\"#e01b24\">", escape_markup(text).as_str(), "</span>")
}

} // verus!
