//! Percent-encoding of remote file names for upload URIs. The escaped
//! set is the controls plus the ASCII characters a URI path cannot carry
//! verbatim here (space, quote, number sign, angle brackets, backquote,
//! question mark, braces, the percent sign itself, the slash and the
//! plus sign) — and every non-ASCII character, byte by byte of its UTF-8
//! form. Escaping one byte is percent-encoding's job; everything around
//! it is verified.

use vstd::prelude::*;
use vstd::string::*;
use vstd::utf8::encode_scalar;

verus! {

/// The ASCII characters an uploaded file name gets escaped in its URI.
pub open spec fn escaped_char(c: char) -> bool {
    ||| (c as int) < 0x20
    ||| c == '\u{7f}'
    ||| c == ' '
    ||| c == '"'
    ||| c == '#'
    ||| c == '<'
    ||| c == '>'
    ||| c == '`'
    ||| c == '?'
    ||| c == '{'
    ||| c == '}'
    ||| c == '%'
    ||| c == '/'
    ||| c == '+'
}

/// A character that passes through the encoding untouched: ASCII and
/// outside the escaped set.
pub open spec fn passes_through(c: char) -> bool {
    (c as int) < 0x80 && !escaped_char(c)
}

/// An upper-case hexadecimal digit character.
pub open spec fn hex_upper(d: nat) -> char
    recommends
        d < 16,
{
    if d == 0 {
        '0'
    } else if d == 1 {
        '1'
    } else if d == 2 {
        '2'
    } else if d == 3 {
        '3'
    } else if d == 4 {
        '4'
    } else if d == 5 {
        '5'
    } else if d == 6 {
        '6'
    } else if d == 7 {
        '7'
    } else if d == 8 {
        '8'
    } else if d == 9 {
        '9'
    } else if d == 10 {
        'A'
    } else if d == 11 {
        'B'
    } else if d == 12 {
        'C'
    } else if d == 13 {
        'D'
    } else if d == 14 {
        'E'
    } else {
        'F'
    }
}

/// The three characters a byte escapes to: a percent sign and two
/// upper-case hexadecimal digits.
pub open spec fn pct_of_byte(b: nat) -> Seq<char> {
    seq!['%', hex_upper(b / 16), hex_upper(b % 16)]
}

/// A run of bytes escaped one after the other.
pub open spec fn pct_of_bytes(bs: Seq<u8>) -> Seq<char>
    decreases bs.len(),
{
    if bs.len() == 0 {
        Seq::<char>::empty()
    } else {
        pct_of_bytes(bs.drop_last()) + pct_of_byte(bs.last() as nat)
    }
}

/// Relies on percent_encoding::percent_encode_byte: it returns the
/// percent sign followed by the byte's two upper-case hex digits.
pub assume_specification[ percent_encoding::percent_encode_byte ](byte: u8) -> (r: &'static str)
    ensures
        r@ == pct_of_byte(byte as nat),
;

/// What one character contributes to the encoded name: itself when it
/// passes through, the percent form of its byte when it is escaped
/// ASCII, and the percent forms of its UTF-8 bytes otherwise.
pub open spec fn escape_char(c: char) -> Seq<char> {
    if passes_through(c) {
        seq![c]
    } else if (c as int) < 0x80 {
        pct_of_byte(c as nat)
    } else {
        pct_of_bytes(encode_scalar(c as u32))
    }
}

/// A file name as it stands in an upload URI.
pub open spec fn upload_escaped(s: Seq<char>) -> Seq<char>
    decreases s.len(),
{
    if s.len() == 0 {
        s
    } else {
        upload_escaped(s.drop_last()) + escape_char(s.last())
    }
}

/// A run of pass-through characters survives the encoding whole.
proof fn lemma_upload_escaped_run(s: Seq<char>, a: int, b: int)
    requires
        0 <= a <= b <= s.len(),
        forall|j: int| a <= j < b ==> passes_through(#[trigger] s[j]),
    ensures
        upload_escaped(s.take(b)) == upload_escaped(s.take(a)) + s.subrange(a, b),
    decreases b - a,
{
    if a == b {
        assert(upload_escaped(s.take(b)) =~= upload_escaped(s.take(a)) + s.subrange(a, b));
    } else {
        lemma_upload_escaped_run(s, a, b - 1);
        assert(s.take(b).drop_last() =~= s.take(b - 1));
        assert(s.take(b).last() == s[b - 1]);
        assert(upload_escaped(s.take(b)) == upload_escaped(s.take(b - 1)) + seq![s[b - 1]]);
        assert(upload_escaped(s.take(a)) + s.subrange(a, b - 1) + seq![s[b - 1]] =~= upload_escaped(
            s.take(a),
        ) + s.subrange(a, b));
    }
}

/// Decide whether a character passes through unescaped.
fn passes_unescaped(c: char) -> (r: bool)
    ensures
        r == passes_through(c),
{
    (c as u32) < 0x80 && !((c as u32) < 0x20 || c == '\u{7f}' || c == ' ' || c == '"' || c == '#'
        || c == '<' || c == '>' || c == '`' || c == '?' || c == '{' || c == '}' || c == '%' || c
        == '/' || c == '+')
}

/// Append the percent form of one byte.
fn append_pct(out: &mut String, byte: u8)
    ensures
        final(out)@ == old(out)@ + pct_of_byte(byte as nat),
{
    let escaped = percent_encoding::percent_encode_byte(byte);
    out.append(escaped);
}

/// Append what one escaped character contributes: its own byte's percent
/// form for ASCII, and the percent forms of its UTF-8 bytes otherwise.
fn append_escaped_char(out: &mut String, c: char)
    requires
        !passes_through(c),
    ensures
        final(out)@ == old(out)@ + escape_char(c),
{
    let u = c as u32;
    if u < 0x80 {
        append_pct(out, u as u8);
        proof {
            assert((c as u32) as u8 as nat == c as nat);
        }
    } else if u < 0x800 {
        let b1: u8 = 0xC0 | ((u >> 6) & 0x1F) as u8;
        let b2: u8 = 0x80 | (u & 0x3F) as u8;
        append_pct(out, b1);
        append_pct(out, b2);
        proof {
            let bs = encode_scalar(c as u32);
            assert(bs =~= seq![b1, b2]);
            assert(bs.drop_last() =~= seq![b1]);
            assert(seq![b1].drop_last() =~= Seq::<u8>::empty());
            assert(pct_of_bytes(Seq::<u8>::empty()) == Seq::<char>::empty());
            assert(pct_of_bytes(seq![b1]) =~= pct_of_byte(b1 as nat));
            assert(pct_of_bytes(bs) =~= pct_of_byte(b1 as nat) + pct_of_byte(b2 as nat));
            assert(final(out)@ =~= old(out)@ + escape_char(c));
        }
    } else if u < 0x10000 {
        let b1: u8 = 0xE0 | ((u >> 12) & 0x0F) as u8;
        let b2: u8 = 0x80 | ((u >> 6) & 0x3F) as u8;
        let b3: u8 = 0x80 | (u & 0x3F) as u8;
        append_pct(out, b1);
        append_pct(out, b2);
        append_pct(out, b3);
        proof {
            let bs = encode_scalar(c as u32);
            assert(bs =~= seq![b1, b2, b3]);
            assert(bs.drop_last() =~= seq![b1, b2]);
            assert(seq![b1, b2].drop_last() =~= seq![b1]);
            assert(seq![b1].drop_last() =~= Seq::<u8>::empty());
            assert(pct_of_bytes(Seq::<u8>::empty()) == Seq::<char>::empty());
            assert(pct_of_bytes(seq![b1]) =~= pct_of_byte(b1 as nat));
            assert(pct_of_bytes(seq![b1, b2]) =~= pct_of_byte(b1 as nat) + pct_of_byte(b2 as nat));
            assert(pct_of_bytes(bs) =~= pct_of_byte(b1 as nat) + pct_of_byte(b2 as nat)
                + pct_of_byte(b3 as nat));
            assert(final(out)@ =~= old(out)@ + escape_char(c));
        }
    } else {
        let b1: u8 = 0xF0 | ((u >> 18) & 0x07) as u8;
        let b2: u8 = 0x80 | ((u >> 12) & 0x3F) as u8;
        let b3: u8 = 0x80 | ((u >> 6) & 0x3F) as u8;
        let b4: u8 = 0x80 | (u & 0x3F) as u8;
        append_pct(out, b1);
        append_pct(out, b2);
        append_pct(out, b3);
        append_pct(out, b4);
        proof {
            let bs = encode_scalar(c as u32);
            assert(bs =~= seq![b1, b2, b3, b4]);
            assert(bs.drop_last() =~= seq![b1, b2, b3]);
            assert(seq![b1, b2, b3].drop_last() =~= seq![b1, b2]);
            assert(seq![b1, b2].drop_last() =~= seq![b1]);
            assert(seq![b1].drop_last() =~= Seq::<u8>::empty());
            assert(pct_of_bytes(Seq::<u8>::empty()) == Seq::<char>::empty());
            assert(pct_of_bytes(seq![b1]) =~= pct_of_byte(b1 as nat));
            assert(pct_of_bytes(seq![b1, b2]) =~= pct_of_byte(b1 as nat) + pct_of_byte(b2 as nat));
            assert(pct_of_bytes(seq![b1, b2, b3]) =~= pct_of_byte(b1 as nat) + pct_of_byte(
                b2 as nat,
            ) + pct_of_byte(b3 as nat));
            assert(pct_of_bytes(bs) =~= pct_of_byte(b1 as nat) + pct_of_byte(b2 as nat)
                + pct_of_byte(b3 as nat) + pct_of_byte(b4 as nat));
            assert(final(out)@ =~= old(out)@ + escape_char(c));
        }
    }
}

/// The percent-encoded form of a remote file name, as it stands in the
/// upload URI.
pub fn encoded_upload_name(name: &str) -> (r: String)
    ensures
        r@ == upload_escaped(name@),
{
    let n = name.unicode_len();
    let mut out = String::new();
    let mut run_start: usize = 0;
    let mut i: usize = 0;
    proof {
        assert(name@.take(0) =~= Seq::<char>::empty());
    }
    while i < n
        invariant
            0 <= run_start <= i <= n,
            n == name@.len(),
            out@ == upload_escaped(name@.take(run_start as int)),
            forall|j: int| run_start <= j < i ==> passes_through(#[trigger] name@[j]),
        decreases n - i,
    {
        let c = name.get_char(i);
        if !passes_unescaped(c) {
            let run = name.substring_char(run_start, i);
            out.append(run);
            proof {
                lemma_upload_escaped_run(name@, run_start as int, i as int);
            }
            append_escaped_char(&mut out, c);
            proof {
                assert(name@.take(i + 1).drop_last() =~= name@.take(i as int));
                assert(name@.take(i + 1).last() == name@[i as int]);
                assert(out@ =~= upload_escaped(name@.take(i + 1)));
            }
            run_start = i + 1;
        }
        i = i + 1;
    }
    let run = name.substring_char(run_start, n);
    out.append(run);
    proof {
        lemma_upload_escaped_run(name@, run_start as int, n as int);
        assert(name@.take(n as int) =~= name@);
    }
    out
}

} // verus!
