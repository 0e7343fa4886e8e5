//! Numbers and text as the script format writes them.

use vstd::prelude::*;

verus! {

/// The character of one decimal digit.
pub open spec fn digit_char(d: nat) -> char
    recommends
        d < 10,
{
    if d == 0 {
        '0'
    } else if d == 1 {
        '1'
    } else if d == 2 {
        '2'
    } else if d == 3 {
        '3'
    } else if d == 4 {
        '4'
    } else if d == 5 {
        '5'
    } else if d == 6 {
        '6'
    } else if d == 7 {
        '7'
    } else if d == 8 {
        '8'
    } else {
        '9'
    }
}

/// The character of one hexadecimal digit, in upper case.
pub open spec fn hex_char(d: nat) -> char
    recommends
        d < 16,
{
    if d < 10 {
        digit_char(d)
    } else if d == 10 {
        'A'
    } else if d == 11 {
        'B'
    } else if d == 12 {
        'C'
    } else if d == 13 {
        'D'
    } else if d == 14 {
        'E'
    } else {
        'F'
    }
}

/// A natural number in decimal, without leading zeros.
pub open spec fn decimal(n: nat) -> Seq<char>
    decreases n,
{
    if n < 10 {
        seq![digit_char(n)]
    } else {
        decimal(n / 10).push(digit_char(n % 10))
    }
}

/// An integer in decimal, with a minus sign where it is negative.
pub open spec fn signed_decimal(i: int) -> Seq<char> {
    if i < 0 {
        seq!['-'] + decimal((-i) as nat)
    } else {
        decimal(i as nat)
    }
}

/// A natural number in decimal, filled with a zero to two digits.
pub open spec fn decimal2(n: nat) -> Seq<char> {
    if n < 10 {
        seq!['0', digit_char(n)]
    } else {
        decimal(n)
    }
}

/// A byte as two hexadecimal digits, in upper case.
pub open spec fn hex2(v: nat) -> Seq<char>
    recommends
        v < 256,
{
    seq![hex_char(v / 16), hex_char(v % 16)]
}

/// The quotient `n / d`, rounded to the nearest integer; a tie goes up.
pub open spec fn rounded_div(n: nat, d: nat) -> nat
    recommends
        d > 0,
{
    (2 * n + d) / (2 * d)
}

/// A time as `H:MM:SS.cc`: the milliseconds are cut to centiseconds, not
/// rounded, and the hours take as many digits as they need.
pub open spec fn timestamp_text(ms: nat) -> Seq<char> {
    let cs = ms / 10;
    decimal(cs / 360000) + seq![':'] + decimal2((cs / 6000) % 60) + seq![':'] + decimal2(
        (cs / 100) % 60,
    ) + seq!['.'] + decimal2(cs % 100)
}

/// A colour in the script's channel order: blue, green, red, two upper-case
/// hexadecimal digits each. Bits above the low 24 are ignored.
pub open spec fn color_text(rgb: nat) -> Seq<char> {
    hex2(rgb % 256) + hex2((rgb / 256) % 256) + hex2((rgb / 65536) % 256)
}

/// What one character of a comment becomes in the text field of a line.
pub open spec fn escaped_char(c: char) -> Seq<char> {
    if c == '\\' {
        seq!['\\', '\\']
    } else if c == '{' {
        seq!['\\', '{']
    } else if c == '}' {
        seq!['\\', '}']
    } else if c == '\n' {
        seq!['\\', 'N']
    } else {
        seq![c]
    }
}

/// A comment's text with every character escaped, in order.
pub open spec fn escaped(s: Seq<char>) -> Seq<char>
    decreases s.len(),
{
    if s.len() == 0 {
        Seq::empty()
    } else {
        escaped(s.drop_last()) + escaped_char(s.last())
    }
}

/// Whether a text field reads as plain characters and two-character escapes
/// only: every backslash starts an escape, no brace stands without a
/// backslash before it, and no line ends inside the field.
pub open spec fn well_escaped(s: Seq<char>) -> bool
    decreases s.len(),
{
    if s.len() == 0 {
        true
    } else if s[0] == '\\' {
        s.len() >= 2 && (s[1] == '\\' || s[1] == '{' || s[1] == '}' || s[1] == 'N') && well_escaped(
            s.skip(2),
        )
    } else {
        s[0] != '{' && s[0] != '}' && s[0] != '\n' && well_escaped(s.skip(1))
    }
}

/// The text that a well-escaped field stands for.
pub open spec fn unescaped(s: Seq<char>) -> Seq<char>
    decreases s.len(),
{
    if s.len() == 0 {
        Seq::empty()
    } else if s[0] == '\\' && s.len() >= 2 {
        seq![if s[1] == 'N' { '\n' } else { s[1] }] + unescaped(s.skip(2))
    } else {
        seq![s[0]] + unescaped(s.skip(1))
    }
}

fn digit_str(d: u8) -> (r: &'static str)
    requires
        d < 10,
    ensures
        r@ == seq![digit_char(d as nat)],
{
    proof {
        reveal_strlit("0");
        reveal_strlit("1");
        reveal_strlit("2");
        reveal_strlit("3");
        reveal_strlit("4");
        reveal_strlit("5");
        reveal_strlit("6");
        reveal_strlit("7");
        reveal_strlit("8");
        reveal_strlit("9");
    }
    let r = if d == 0 {
        "0"
    } else if d == 1 {
        "1"
    } else if d == 2 {
        "2"
    } else if d == 3 {
        "3"
    } else if d == 4 {
        "4"
    } else if d == 5 {
        "5"
    } else if d == 6 {
        "6"
    } else if d == 7 {
        "7"
    } else if d == 8 {
        "8"
    } else {
        "9"
    };
    assert(r@ =~= seq![digit_char(d as nat)]);
    r
}

fn hex_str(d: u8) -> (r: &'static str)
    requires
        d < 16,
    ensures
        r@ == seq![hex_char(d as nat)],
{
    if d < 10 {
        digit_str(d)
    } else {
        proof {
            reveal_strlit("A");
            reveal_strlit("B");
            reveal_strlit("C");
            reveal_strlit("D");
            reveal_strlit("E");
            reveal_strlit("F");
        }
        let r = if d == 10 {
            "A"
        } else if d == 11 {
            "B"
        } else if d == 12 {
            "C"
        } else if d == 13 {
            "D"
        } else if d == 14 {
            "E"
        } else {
            "F"
        };
        assert(r@ =~= seq![hex_char(d as nat)]);
        r
    }
}

/// Appends `n` in decimal.
pub fn push_decimal(out: &mut String, n: u128)
    ensures
        final(out)@ == old(out)@ + decimal(n as nat),
    decreases n,
{
    if n >= 10 {
        push_decimal(out, n / 10);
    }
    out.append(digit_str((n % 10) as u8));
    assert(out@ =~= old(out)@ + decimal(n as nat));
}

/// Appends `i` in decimal, with its sign where it is negative.
pub fn push_signed_decimal(out: &mut String, i: i128)
    ensures
        final(out)@ == old(out)@ + signed_decimal(i as int),
{
    if i < 0 {
        proof {
            reveal_strlit("-");
        }
        out.append("-");
        // The magnitude of the least value does not fit the signed type.
        let magnitude: u128 = (-(i + 1)) as u128 + 1;
        push_decimal(out, magnitude);
        assert(out@ =~= old(out)@ + signed_decimal(i as int));
    } else {
        push_decimal(out, i as u128);
    }
}

/// Appends `n` in decimal, filled with a zero to two digits.
pub fn push_decimal2(out: &mut String, n: u128)
    ensures
        final(out)@ == old(out)@ + decimal2(n as nat),
{
    if n < 10 {
        out.append("0");
        out.append(digit_str(n as u8));
        proof {
            reveal_strlit("0");
        }
        assert(out@ =~= old(out)@ + decimal2(n as nat));
    } else {
        push_decimal(out, n);
    }
}

/// Appends a byte as two upper-case hexadecimal digits.
pub fn push_hex2(out: &mut String, v: u8)
    ensures
        final(out)@ == old(out)@ + hex2(v as nat),
{
    out.append(hex_str(v / 16));
    out.append(hex_str(v % 16));
    assert(out@ =~= old(out)@ + hex2(v as nat));
}

/// Appends a time as `H:MM:SS.cc`.
pub fn push_timestamp(out: &mut String, ms: u128)
    ensures
        final(out)@ == old(out)@ + timestamp_text(ms as nat),
{
    let cs: u128 = ms / 10;
    proof {
        reveal_strlit(":");
        reveal_strlit(".");
    }
    push_decimal(out, cs / 360000);
    out.append(":");
    push_decimal2(out, (cs / 6000) % 60);
    out.append(":");
    push_decimal2(out, (cs / 100) % 60);
    out.append(".");
    push_decimal2(out, cs % 100);
    assert(out@ =~= old(out)@ + timestamp_text(ms as nat));
}

/// A time in milliseconds as `H:MM:SS.cc`, cut to centiseconds.
pub fn convert_timestamp(timestamp: u64) -> (text: String)
    ensures
        text@ == timestamp_text(timestamp as nat),
{
    let mut text = String::new();
    push_timestamp(&mut text, timestamp as u128);
    assert(text@ =~= timestamp_text(timestamp as nat));
    text
}

/// A 24-bit RGB colour as six hexadecimal digits in the order blue, green,
/// red.
pub fn convert_color(rgb: u32) -> (text: String)
    ensures
        text@ == color_text(rgb as nat),
{
    let mut text = String::new();
    push_hex2(&mut text, (rgb % 256) as u8);
    push_hex2(&mut text, ((rgb / 256) % 256) as u8);
    push_hex2(&mut text, ((rgb / 65536) % 256) as u8);
    assert(text@ =~= color_text(rgb as nat));
    text
}

/// Appends `text` with every character escaped.
pub fn push_escaped(out: &mut String, text: &str)
    ensures
        final(out)@ == old(out)@ + escaped(text@),
{
    let n = text.unicode_len();
    let mut i: usize = 0;
    proof {
        assert(text@.take(0) =~= Seq::<char>::empty());
        assert(out@ =~= old(out)@ + escaped(text@.take(0)));
    }
    while i < n
        invariant
            i <= n,
            n == text@.len(),
            out@ == old(out)@ + escaped(text@.take(i as int)),
        decreases n - i,
    {
        let ghost before = out@;
        let c = text.get_char(i);
        if c == '\\' {
            out.append("\\\\");
        } else if c == '{' {
            out.append("\\{");
        } else if c == '}' {
            out.append("\\}");
        } else if c == '\n' {
            out.append("\\N");
        } else {
            out.append(text.substring_char(i, i + 1));
        }
        proof {
            reveal_strlit("\\\\");
            reveal_strlit("\\{");
            reveal_strlit("\\}");
            reveal_strlit("\\N");
            assert(text@.subrange(i as int, i + 1) =~= seq![c]);
            let next = text@.take(i + 1);
            assert(next.drop_last() =~= text@.take(i as int));
            assert(next.last() == c);
            assert(out@ =~= before + escaped_char(c));
            assert(out@ =~= old(out)@ + escaped(next));
        }
        i += 1;
    }
    assert(text@.take(n as int) =~= text@);
}

/// A comment's text made safe for the text field of a line: a backslash, an
/// opening and a closing brace each get a backslash before them, and a line
/// break becomes the marker `\N`.
pub fn ass_escape(text: &str) -> (out: String)
    ensures
        out@ == escaped(text@),
{
    let mut out = String::new();
    push_escaped(&mut out, text);
    assert(out@ =~= escaped(text@));
    out
}

/// `n / d` rounded to the nearest integer, a tie going up.
pub fn round_div(n: u64, d: u64) -> (q: u64)
    requires
        d > 0,
    ensures
        q == rounded_div(n as nat, d as nat),
{
    let q: u128 = (2 * (n as u128) + d as u128) / (2 * (d as u128));
    assert(q <= u64::MAX) by (nonlinear_arith)
        requires
            q == (2 * (n as int) + d as int) / (2 * (d as int)),
            d >= 1,
            n <= u64::MAX,
    ;
    q as u64
}

/// Escaping the whole is escaping the parts, in order.
pub proof fn lemma_escaped_concat(a: Seq<char>, b: Seq<char>)
    ensures
        escaped(a + b) == escaped(a) + escaped(b),
    decreases b.len(),
{
    if b.len() == 0 {
        assert(a + b =~= a);
        assert(escaped(a) + escaped(b) =~= escaped(a));
    } else {
        assert((a + b).drop_last() =~= a + b.drop_last());
        lemma_escaped_concat(a, b.drop_last());
        assert(escaped(a + b) =~= escaped(a) + escaped(b));
    }
}

proof fn lemma_escaped_front(s: Seq<char>)
    requires
        s.len() > 0,
    ensures
        escaped(s) == escaped_char(s[0]) + escaped(s.skip(1)),
{
    let head = seq![s[0]];
    assert(head.drop_last() =~= Seq::<char>::empty());
    assert(escaped(head.drop_last()) =~= Seq::<char>::empty());
    assert(escaped(head) =~= escaped_char(s[0]));
    assert(s =~= head + s.skip(1));
    lemma_escaped_concat(head, s.skip(1));
}

/// Escaped text never holds a brace without a backslash before it, a
/// backslash that starts no escape, or a line break; every line break of the
/// text has become the marker `\N`, and the text can be read back from the
/// result, so that nothing was lost.
pub proof fn lemma_escaped_is_safe(s: Seq<char>)
    ensures
        well_escaped(escaped(s)),
        unescaped(escaped(s)) == s,
        !escaped(s).contains('\n'),
    decreases s.len(),
{
    let e = escaped(s);
    if s.len() == 0 {
        assert(unescaped(e) =~= s);
    } else {
        let rest = s.skip(1);
        lemma_escaped_front(s);
        lemma_escaped_is_safe(rest);
        let c = s[0];
        if c == '\\' || c == '{' || c == '}' || c == '\n' {
            assert(e.skip(2) =~= escaped(rest));
        } else {
            assert(e.skip(1) =~= escaped(rest));
        }
        assert(unescaped(e) =~= seq![c] + rest);
        assert(seq![c] + rest =~= s);
        assert forall|i: int| 0 <= i < e.len() implies e[i] != '\n' by {
            let k = escaped_char(c).len() as int;
            if i >= k {
                assert(e[i] == escaped(rest)[i - k]);
            }
        }
    }
}

} // verus!
