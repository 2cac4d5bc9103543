//! Percent-encoding of text.

use crate::number::{hex_digit, hex_digit_char};
use crate::text::{chars_of, string_of, trim, trimmed};
use vstd::prelude::*;
use vstd::utf8::{encode_utf8, encode_utf8_decode_utf8};

verus! {

/// Which bytes an encoding leaves as they are.
#[derive(Debug, Clone, Copy, PartialEq, Eq, Structural)]
pub enum Kept {
    /// Letters, digits and `-`, `_`, `.` and `~`.
    Unreserved,
    /// The printable ASCII characters that can stand in an address, its separators among
    /// them.
    Address,
}

/// Whether an encoding leaves a byte as it is.
pub open spec fn is_kept(kept: Kept, b: u8) -> bool {
    match kept {
        Kept::Unreserved => {
            ||| 'A' as int <= b <= 'Z' as int
            ||| 'a' as int <= b <= 'z' as int
            ||| '0' as int <= b <= '9' as int
            ||| b == '-' as int
            ||| b == '_' as int
            ||| b == '.' as int
            ||| b == '~' as int
        },
        Kept::Address => {
            &&& 0x21 <= b <= 0x7e
            &&& b != '"' as int
            &&& b != '<' as int
            &&& b != '>' as int
            &&& b != '`' as int
        },
    }
}

fn keeps(kept: Kept, b: u8) -> (r: bool)
    ensures
        r == is_kept(kept, b),
{
    match kept {
        Kept::Unreserved => (65 <= b && b <= 90) || (97 <= b && b <= 122) || (48 <= b && b <= 57)
            || b == 45 || b == 95 || b == 46 || b == 126,
        Kept::Address => 0x21 <= b && b <= 0x7e && b != 34 && b != 60 && b != 62 && b != 96,
    }
}

/// What a byte is written as.
pub open spec fn escaped_byte(kept: Kept, b: u8) -> Seq<char> {
    if is_kept(kept, b) {
        seq![b as char]
    } else {
        seq!['%', hex_digit(b as int / 16), hex_digit(b as int % 16)]
    }
}

/// What bytes are written as.
pub open spec fn escaped(kept: Kept, b: Seq<u8>) -> Seq<char>
    decreases b.len(),
{
    if b.len() == 0 {
        Seq::empty()
    } else {
        escaped_byte(kept, b[0]) + escaped(kept, b.skip(1))
    }
}

fn escape(kept: Kept, b: &[u8]) -> (r: String)
    ensures
        r@ == escaped(kept, b@),
{
    let mut out: String = String::new();
    let mut i: usize = 0;
    assert(b@.skip(0) =~= b@);
    while i < b.len()
        invariant
            i <= b@.len(),
            out@ + escaped(kept, b@.skip(i as int)) == escaped(kept, b@),
        decreases b@.len() - i,
    {
        let ghost before = out@;
        let byte: u8 = b[i];
        if keeps(kept, byte) {
            out.push(byte as char);
        } else {
            out.push('%');
            out.push(hex_digit_char(byte / 16));
            out.push(hex_digit_char(byte % 16));
        }
        assert(out@ =~= before + escaped_byte(kept, byte));
        assert(b@.skip(i as int).skip(1) =~= b@.skip(i + 1));
        assert(out@ + escaped(kept, b@.skip(i + 1)) =~= before + escaped(kept, b@.skip(i as int)));
        i = i + 1;
    }
    assert(out@ + escaped(kept, b@.skip(i as int)) =~= out@);
    out
}

/// The text with every byte but letters, digits and `-`, `_`, `.` and `~` escaped.
pub fn percent_encode(value: &str) -> (r: String)
    ensures
        r@ == escaped(Kept::Unreserved, encode_utf8(value@)),
{
    escape(Kept::Unreserved, value.as_bytes())
}

/// The address of a new tab as the browser takes it: what separates the parts of an
/// address stays.
pub fn encode_cdp_target_url(value: &str) -> (r: String)
    ensures
        r@ == escaped(Kept::Address, encode_utf8(trimmed(value@))),
{
    let chars: Vec<char> = chars_of(value);
    let clean: String = string_of(trim(chars.as_slice()));
    escape(Kept::Address, clean.as_str().as_bytes())
}

/// The value of an upper-case hexadecimal digit.
pub open spec fn hex_value(c: char) -> int {
    if c as int >= 65 {
        c as int - 55
    } else {
        c as int - 48
    }
}

/// The bytes that an escaped text stands for.
pub open spec fn unescaped(s: Seq<char>) -> Seq<u8>
    decreases s.len(),
{
    if s.len() == 0 {
        Seq::empty()
    } else if s[0] == '%' && s.len() >= 3 {
        seq![(hex_value(s[1]) * 16 + hex_value(s[2])) as u8] + unescaped(s.skip(3))
    } else {
        seq![s[0] as u8] + unescaped(s.skip(1))
    }
}

/// Escaping loses nothing: the bytes are read back from the text.
pub proof fn escaping_reads_back(b: Seq<u8>)
    ensures
        unescaped(escaped(Kept::Unreserved, b)) == b,
    decreases b.len(),
{
    if b.len() > 0 {
        escaping_reads_back(b.skip(1));
        let rest = escaped(Kept::Unreserved, b.skip(1));
        let all = escaped(Kept::Unreserved, b);
        if is_kept(Kept::Unreserved, b[0]) {
            assert(all.skip(1) =~= rest);
            assert(all[0] == b[0] as char);
        } else {
            assert(all.skip(3) =~= rest);
            assert(all[0] == '%');
            assert(hex_value(all[1]) == b[0] as int / 16);
            assert(hex_value(all[2]) == b[0] as int % 16);
        }
        assert(seq![b[0]] + b.skip(1) =~= b);
    }
}

proof fn lemma_escaped_sum(kept: Kept, a: Seq<u8>, b: Seq<u8>)
    ensures
        escaped(kept, a + b) == escaped(kept, a) + escaped(kept, b),
    decreases a.len(),
{
    if a.len() == 0 {
        assert(a + b =~= b);
        assert(escaped(kept, a) + escaped(kept, b) =~= escaped(kept, b));
    } else {
        lemma_escaped_sum(kept, a.skip(1), b);
        assert((a + b).skip(1) =~= a.skip(1) + b);
        assert(escaped(kept, a + b) =~= escaped(kept, a) + escaped(kept, b));
    }
}

proof fn lemma_encoded_sum(a: Seq<char>, b: Seq<char>)
    ensures
        encode_utf8(a + b) == encode_utf8(a) + encode_utf8(b),
    decreases a.len(),
{
    if a.len() == 0 {
        assert(a + b =~= b);
        assert(encode_utf8(a) + encode_utf8(b) =~= encode_utf8(b));
    } else {
        lemma_encoded_sum(a.drop_first(), b);
        assert((a + b).drop_first() =~= a.drop_first() + b);
        assert(encode_utf8(a + b) =~= encode_utf8(a) + encode_utf8(b));
    }
}

/// Texts may be escaped piece by piece.
pub proof fn escaping_distributes(kept: Kept, a: Seq<char>, b: Seq<char>)
    ensures
        escaped(kept, encode_utf8(a + b)) == escaped(kept, encode_utf8(a)) + escaped(
            kept,
            encode_utf8(b),
        ),
{
    lemma_encoded_sum(a, b);
    lemma_escaped_sum(kept, encode_utf8(a), encode_utf8(b));
}

/// Different texts are escaped differently.
pub proof fn escaping_tells_texts_apart(a: Seq<char>, b: Seq<char>)
    requires
        escaped(Kept::Unreserved, encode_utf8(a)) == escaped(Kept::Unreserved, encode_utf8(b)),
    ensures
        a == b,
{
    escaping_reads_back(encode_utf8(a));
    escaping_reads_back(encode_utf8(b));
    encode_utf8_decode_utf8(a);
    encode_utf8_decode_utf8(b);
}

/// An escaped text is made of characters that are kept and of escapes: a percent sign with
/// two upper-case hexadecimal digits behind it.
pub open spec fn is_escaped(kept: Kept, s: Seq<char>) -> bool
    decreases s.len(),
{
    if s.len() == 0 {
        true
    } else if s[0] == '%' && s.len() >= 3 && is_upper_hex(s[1]) && is_upper_hex(s[2]) {
        is_escaped(kept, s.skip(3))
    } else {
        s[0] as int <= 0x7e && is_kept(kept, s[0] as u8) && is_escaped(kept, s.skip(1))
    }
}

/// Whether a character is an upper-case hexadecimal digit.
pub open spec fn is_upper_hex(c: char) -> bool {
    '0' <= c <= '9' || 'A' <= c <= 'F'
}

/// What is escaped holds only what is kept and escapes.
pub proof fn escaped_text_is_well_formed(b: Seq<u8>)
    ensures
        is_escaped(Kept::Unreserved, escaped(Kept::Unreserved, b)),
    decreases b.len(),
{
    if b.len() > 0 {
        escaped_text_is_well_formed(b.skip(1));
        let all = escaped(Kept::Unreserved, b);
        let rest = escaped(Kept::Unreserved, b.skip(1));
        if is_kept(Kept::Unreserved, b[0]) {
            assert(all[0] == b[0] as char);
            assert(all.skip(1) =~= rest);
        } else {
            assert(all.skip(3) =~= rest);
        }
    }
}

/// An escaped text is plain ASCII.
pub proof fn escaped_text_is_printable(kept: Kept, b: Seq<u8>)
    ensures
        forall|i: int|
            0 <= i < escaped(kept, b).len() ==> 0x21 <= #[trigger] escaped(kept, b)[i] as int
                <= 0x7e,
    decreases b.len(),
{
    if b.len() > 0 {
        escaped_text_is_printable(kept, b.skip(1));
        let head = escaped_byte(kept, b[0]);
        let rest = escaped(kept, b.skip(1));
        assert forall|i: int| 0 <= i < escaped(kept, b).len() implies 0x21
            <= #[trigger] escaped(kept, b)[i] as int <= 0x7e by {
            if i < head.len() {
                assert(escaped(kept, b)[i] == head[i]);
            } else {
                assert(escaped(kept, b)[i] == rest[i - head.len()]);
            }
        }
    }
}

/// A character that may stand in an escaped text by itself.
pub open spec fn is_plain_sign(c: char) -> bool {
    ||| 0x41 <= c as int <= 0x5a
    ||| 0x61 <= c as int <= 0x7a
    ||| 0x30 <= c as int <= 0x39
    ||| c == '-'
    ||| c == '_'
    ||| c == '.'
    ||| c == '~'
}

/// An escaped text is made of letters, digits, a few plain signs and escapes alone.
pub proof fn escaped_text_is_plain(b: Seq<u8>)
    ensures
        forall|i: int|
            0 <= i < escaped(Kept::Unreserved, b).len() ==> is_plain_sign(
                #[trigger] escaped(Kept::Unreserved, b)[i],
            ) || escaped(Kept::Unreserved, b)[i] == '%',
    decreases b.len(),
{
    if b.len() > 0 {
        escaped_text_is_plain(b.skip(1));
        let all = escaped(Kept::Unreserved, b);
        let head = escaped_byte(Kept::Unreserved, b[0]);
        let rest = escaped(Kept::Unreserved, b.skip(1));
        assert forall|i: int| 0 <= i < all.len() implies is_plain_sign(#[trigger] all[i]) || all[i]
            == '%' by {
            if i < head.len() {
                assert(all[i] == head[i]);
            } else {
                assert(all[i] == rest[i - head.len()]);
            }
        }
    }
}

/// Letters, digits and the plain signs stay as they are.
pub proof fn plain_signs_stay(b: Seq<u8>)
    requires
        forall|i: int| 0 <= i < b.len() ==> is_plain_sign((#[trigger] b[i]) as char),
    ensures
        escaped(Kept::Unreserved, b) == b.map_values(|x: u8| x as char),
    decreases b.len(),
{
    let shown = b.map_values(|x: u8| x as char);
    if b.len() > 0 {
        let rest = b.skip(1);
        assert forall|i: int| 0 <= i < rest.len() implies is_plain_sign((#[trigger] rest[i]) as char) by {
            assert(rest[i] == b[i + 1]);
        }
        plain_signs_stay(rest);
        assert(is_plain_sign(b[0] as char));
        assert(is_kept(Kept::Unreserved, b[0]));
        assert(escaped(Kept::Unreserved, b) =~= shown);
    } else {
        assert(escaped(Kept::Unreserved, b) =~= shown);
    }
}

} // verus!
