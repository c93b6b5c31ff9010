use vstd::prelude::*;
use vstd::string::StrSliceExecFns;
use vstd::string::StringExecFns;
use vstd::utf8::char_is_scalar;
use vstd::utf8::encode_scalar;
use crate::generate::is_alphanumeric_char;

verus! {

/// Character-wise string equality (the flows compare identifiers, secrets
/// and redirect URIs byte for byte, with no normalisation).
pub fn str_eq(a: &str, b: &str) -> (r: bool)
    ensures
        r == (a@ == b@),
{
    let na: usize = a.unicode_len();
    let nb: usize = b.unicode_len();
    if na != nb {
        return false;
    }
    let mut i: usize = 0;
    while i < na
        invariant
            i <= na,
            na == a@.len(),
            na == b@.len(),
            forall|j: int| 0 <= j < i ==> a@[j] == b@[j],
        decreases na - i,
    {
        let ca: char = a.get_char(i);
        let cb: char = b.get_char(i);
        if ca != cb {
            return false;
        }
        i = i + 1;
    }
    proof {
        assert(a@ =~= b@);
    }
    true
}

/// Character-wise string equality whose running time depends only on the
/// lengths compared, never on where the first difference lies: the client
/// secret sits on the critical security path, and an early exit would leak
/// its prefix through timing.
pub fn str_eq_constant_time(a: &str, b: &str) -> (r: bool)
    ensures
        r == (a@ == b@),
{
    let na: usize = a.unicode_len();
    let nb: usize = b.unicode_len();
    if na != nb {
        return false;
    }
    let mut acc: u32 = 0;
    let mut i: usize = 0;
    while i < na
        invariant
            i <= na,
            na == a@.len(),
            na == b@.len(),
            (acc == 0) <==> (forall|j: int| 0 <= j < i ==> a@[j] == b@[j]),
        decreases na - i,
    {
        let ca: char = a.get_char(i);
        let cb: char = b.get_char(i);
        let ca32: u32 = ca as u32;
        let cb32: u32 = cb as u32;
        proof {
            assert((ca32 ^ cb32 == 0) <==> (ca32 == cb32)) by (bit_vector);
            assert(((acc | (ca32 ^ cb32)) == 0) <==> (acc == 0 && ca32 ^ cb32 == 0))
                by (bit_vector);
            vstd::utf8::char_u32_cast(ca, ca32);
            vstd::utf8::char_u32_cast(cb, cb32);
        }
        acc = acc | (ca32 ^ cb32);
        i = i + 1;
    }
    if acc == 0 {
        proof {
            assert(a@ =~= b@);
        }
        true
    } else {
        false
    }
}

/// Uppercase hexadecimal digit of a value below sixteen.
pub open spec fn hex_digit(n: int) -> char {
    if n == 0 {
        '0'
    } else if n == 1 {
        '1'
    } else if n == 2 {
        '2'
    } else if n == 3 {
        '3'
    } else if n == 4 {
        '4'
    } else if n == 5 {
        '5'
    } else if n == 6 {
        '6'
    } else if n == 7 {
        '7'
    } else if n == 8 {
        '8'
    } else if n == 9 {
        '9'
    } else if n == 10 {
        'A'
    } else if n == 11 {
        'B'
    } else if n == 12 {
        'C'
    } else if n == 13 {
        'D'
    } else if n == 14 {
        'E'
    } else {
        'F'
    }
}

fn hex_digit_str(n: u8) -> (r: &'static str)
    requires
        n < 16,
    ensures
        r@ == seq![hex_digit(n as int)],
{
    if n == 0 {
        proof {
            reveal_strlit("0");
            assert("0"@ =~= seq![hex_digit(0)]);
        }
        return "0";
    }
    if n == 1 {
        proof {
            reveal_strlit("1");
            assert("1"@ =~= seq![hex_digit(1)]);
        }
        return "1";
    }
    if n == 2 {
        proof {
            reveal_strlit("2");
            assert("2"@ =~= seq![hex_digit(2)]);
        }
        return "2";
    }
    if n == 3 {
        proof {
            reveal_strlit("3");
            assert("3"@ =~= seq![hex_digit(3)]);
        }
        return "3";
    }
    if n == 4 {
        proof {
            reveal_strlit("4");
            assert("4"@ =~= seq![hex_digit(4)]);
        }
        return "4";
    }
    if n == 5 {
        proof {
            reveal_strlit("5");
            assert("5"@ =~= seq![hex_digit(5)]);
        }
        return "5";
    }
    if n == 6 {
        proof {
            reveal_strlit("6");
            assert("6"@ =~= seq![hex_digit(6)]);
        }
        return "6";
    }
    if n == 7 {
        proof {
            reveal_strlit("7");
            assert("7"@ =~= seq![hex_digit(7)]);
        }
        return "7";
    }
    if n == 8 {
        proof {
            reveal_strlit("8");
            assert("8"@ =~= seq![hex_digit(8)]);
        }
        return "8";
    }
    if n == 9 {
        proof {
            reveal_strlit("9");
            assert("9"@ =~= seq![hex_digit(9)]);
        }
        return "9";
    }
    if n == 10 {
        proof {
            reveal_strlit("A");
            assert("A"@ =~= seq![hex_digit(10)]);
        }
        return "A";
    }
    if n == 11 {
        proof {
            reveal_strlit("B");
            assert("B"@ =~= seq![hex_digit(11)]);
        }
        return "B";
    }
    if n == 12 {
        proof {
            reveal_strlit("C");
            assert("C"@ =~= seq![hex_digit(12)]);
        }
        return "C";
    }
    if n == 13 {
        proof {
            reveal_strlit("D");
            assert("D"@ =~= seq![hex_digit(13)]);
        }
        return "D";
    }
    if n == 14 {
        proof {
            reveal_strlit("E");
            assert("E"@ =~= seq![hex_digit(14)]);
        }
        return "E";
    }
    proof {
        reveal_strlit("F");
        assert("F"@ =~= seq![hex_digit(15)]);
    }
    "F"
}

/// Characters a query-string leaves unescaped: ASCII letters, digits and
/// '-', '.', '_', '~'.
pub open spec fn is_unreserved(c: char) -> bool {
    is_alphanumeric_char(c) || c == '-' || c == '.' || c == '_' || c == '~'
}

fn is_unreserved_char(c: char) -> (r: bool)
    ensures
        r == is_unreserved(c),
{
    let u: u32 = c as u32;
    (48 <= u && u <= 57) || (65 <= u && u <= 90) || (97 <= u && u <= 122) || u == 45 || u == 46
        || u == 95 || u == 126
}

/// Percent-encoding of one byte: '%' and two uppercase hexadecimal digits.
pub open spec fn percent_byte(b: u8) -> Seq<char> {
    seq!['%', hex_digit(b as int / 16), hex_digit(b as int % 16)]
}

/// Percent-encoding of a byte sequence.
pub open spec fn percent_bytes(bs: Seq<u8>) -> Seq<char>
    decreases bs.len(),
{
    if bs.len() == 0 {
        Seq::empty()
    } else {
        percent_byte(bs[0]) + percent_bytes(bs.drop_first())
    }
}

/// How one character stands in a query-string: an unreserved character
/// stands for itself, every other character as the percent-encoding of its
/// UTF-8 bytes.
pub open spec fn encoded_char(c: char) -> Seq<char> {
    if is_unreserved(c) {
        seq![c]
    } else {
        percent_bytes(encode_scalar(c as u32))
    }
}

/// Query-string encoding of a whole string.
pub open spec fn qs_encode(s: Seq<char>) -> Seq<char>
    decreases s.len(),
{
    if s.len() == 0 {
        Seq::empty()
    } else {
        encoded_char(s[0]) + qs_encode(s.drop_first())
    }
}

/// Encoding one more character appends that character's encoding.
pub proof fn lemma_qs_encode_push(s: Seq<char>, c: char)
    ensures
        qs_encode(s.push(c)) == qs_encode(s) + encoded_char(c),
    decreases s.len(),
{
    reveal_with_fuel(qs_encode, 3);
    if s.len() == 0 {
        assert(s.push(c)[0] == c);
        assert(s.push(c).drop_first() =~= Seq::<char>::empty());
        assert(qs_encode(s.push(c)) =~= qs_encode(s) + encoded_char(c));
    } else {
        assert(s.push(c)[0] == s[0]);
        assert(s.push(c).drop_first() =~= s.drop_first().push(c));
        lemma_qs_encode_push(s.drop_first(), c);
        assert(qs_encode(s.push(c)) =~= qs_encode(s) + encoded_char(c));
    }
}

proof fn lemma_percent_bytes_one(b0: u8)
    ensures
        percent_bytes(seq![b0]) == percent_byte(b0),
{
    reveal_with_fuel(percent_bytes, 2);
    assert(seq![b0].drop_first() =~= Seq::<u8>::empty());
    assert(percent_bytes(seq![b0]) =~= percent_byte(b0));
}

proof fn lemma_percent_bytes_two(b0: u8, b1: u8)
    ensures
        percent_bytes(seq![b0, b1]) == percent_byte(b0) + percent_byte(b1),
{
    assert(seq![b0, b1].drop_first() =~= seq![b1]);
    lemma_percent_bytes_one(b1);
    assert(percent_bytes(seq![b0, b1]) =~= percent_byte(b0) + percent_byte(b1));
}

proof fn lemma_percent_bytes_three(b0: u8, b1: u8, b2: u8)
    ensures
        percent_bytes(seq![b0, b1, b2]) == percent_byte(b0) + percent_byte(b1) + percent_byte(b2),
{
    assert(seq![b0, b1, b2].drop_first() =~= seq![b1, b2]);
    lemma_percent_bytes_two(b1, b2);
    assert(percent_bytes(seq![b0, b1, b2]) =~= percent_byte(b0) + percent_byte(b1) + percent_byte(
        b2,
    ));
}

proof fn lemma_percent_bytes_four(b0: u8, b1: u8, b2: u8, b3: u8)
    ensures
        percent_bytes(seq![b0, b1, b2, b3]) == percent_byte(b0) + percent_byte(b1) + percent_byte(
            b2,
        ) + percent_byte(b3),
{
    assert(seq![b0, b1, b2, b3].drop_first() =~= seq![b1, b2, b3]);
    lemma_percent_bytes_three(b1, b2, b3);
    assert(percent_bytes(seq![b0, b1, b2, b3]) =~= percent_byte(b0) + percent_byte(b1)
        + percent_byte(b2) + percent_byte(b3));
}

fn push_percent(out: &mut String, b: u8)
    ensures
        final(out)@ == old(out)@ + percent_byte(b),
{
    out.append("%");
    out.append(hex_digit_str(b / 16));
    out.append(hex_digit_str(b % 16));
    proof {
        reveal_strlit("%");
        assert(out@ =~= old(out)@ + percent_byte(b));
    }
}

/// Query-string encode a string: unreserved characters pass through, every
/// other character becomes the percent-encoding of its UTF-8 bytes.
pub fn qs_encode_str(s: &str) -> (r: String)
    ensures
        r@ == qs_encode(s@),
{
    let n: usize = s.unicode_len();
    let mut out = String::new();
    let mut i: usize = 0;
    while i < n
        invariant
            i <= n,
            n == s@.len(),
            out@ == qs_encode(s@.subrange(0, i as int)),
        decreases n - i,
    {
        let c: char = s.get_char(i);
        let ghost prefix = s@.subrange(0, i as int);
        let ghost done = out@;
        if is_unreserved_char(c) {
            let piece: &str = s.substring_char(i, i + 1);
            proof {
                assert(piece@ =~= seq![c]);
            }
            out.append(piece);
            proof {
                assert(out@ =~= done + encoded_char(c));
            }
        } else {
            let u: u32 = c as u32;
            proof {
                char_is_scalar(c);
            }
            if u < 0x80 {
                let b0: u8 = (u & 0x7F) as u8;
                push_percent(&mut out, b0);
                proof {
                    assert(encode_scalar(u) =~= seq![b0]);
                    lemma_percent_bytes_one(b0);
                    assert(out@ =~= done + encoded_char(c));
                }
            } else if u < 0x800 {
                let b0: u8 = 0xC0 | (((u >> 6) & 0x1F) as u8);
                let b1: u8 = 0x80 | ((u & 0x3F) as u8);
                push_percent(&mut out, b0);
                push_percent(&mut out, b1);
                proof {
                    assert(encode_scalar(u) =~= seq![b0, b1]);
                    lemma_percent_bytes_two(b0, b1);
                    assert(out@ =~= done + encoded_char(c));
                }
            } else if u < 0x10000 {
                let b0: u8 = 0xE0 | (((u >> 12) & 0x0F) as u8);
                let b1: u8 = 0x80 | (((u >> 6) & 0x3F) as u8);
                let b2: u8 = 0x80 | ((u & 0x3F) as u8);
                push_percent(&mut out, b0);
                push_percent(&mut out, b1);
                push_percent(&mut out, b2);
                proof {
                    assert(encode_scalar(u) =~= seq![b0, b1, b2]);
                    lemma_percent_bytes_three(b0, b1, b2);
                    assert(out@ =~= done + encoded_char(c));
                }
            } else {
                let b0: u8 = 0xF0 | (((u >> 18) & 0x7) as u8);
                let b1: u8 = 0x80 | (((u >> 12) & 0x3F) as u8);
                let b2: u8 = 0x80 | (((u >> 6) & 0x3F) as u8);
                let b3: u8 = 0x80 | ((u & 0x3F) as u8);
                push_percent(&mut out, b0);
                push_percent(&mut out, b1);
                push_percent(&mut out, b2);
                push_percent(&mut out, b3);
                proof {
                    assert(encode_scalar(u) =~= seq![b0, b1, b2, b3]);
                    lemma_percent_bytes_four(b0, b1, b2, b3);
                    assert(out@ =~= done + encoded_char(c));
                }
            }
        }
        proof {
            assert(s@.subrange(0, i as int + 1) =~= prefix.push(c));
            lemma_qs_encode_push(prefix, c);
        }
        i = i + 1;
    }
    proof {
        assert(s@.subrange(0, n as int) =~= s@);
    }
    out
}

} // verus!
