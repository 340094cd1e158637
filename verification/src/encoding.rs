//! Hexadecimal and decimal text codecs used at the gateway and by the sinks.

use vstd::prelude::*;
use vstd::string::StringExecFns;

verus! {

/// Numeric value of one ASCII hexadecimal digit, if the byte is one.
pub open spec fn hex_val(b: u8) -> Option<u8> {
    if 0x30 <= b && b <= 0x39 {
        Some((b - 0x30) as u8)
    } else if 0x61 <= b && b <= 0x66 {
        Some((b - 0x61 + 10) as u8)
    } else if 0x41 <= b && b <= 0x46 {
        Some((b - 0x41 + 10) as u8)
    } else {
        None
    }
}

/// The bytes spelled by a sequence of hexadecimal digit pairs; `None` when the
/// sequence has odd length or holds a byte that is no hexadecimal digit.
pub open spec fn hex_decode(s: Seq<u8>) -> Option<Seq<u8>>
    decreases s.len(),
{
    if s.len() == 0 {
        Some(Seq::empty())
    } else if s.len() == 1 {
        None
    } else {
        match (hex_val(s[0]), hex_val(s[1])) {
            (Some(hi), Some(lo)) => match hex_decode(s.skip(2)) {
                Some(rest) => Some(seq![(16 * hi + lo) as u8] + rest),
                None => None,
            },
            _ => None,
        }
    }
}

/// Value of one hexadecimal digit byte.
pub fn hex_digit(b: u8) -> (r: Option<u8>)
    ensures
        r == hex_val(b),
{
    if 0x30 <= b && b <= 0x39 {
        Some(b - 0x30)
    } else if 0x61 <= b && b <= 0x66 {
        Some(b - 0x61 + 10)
    } else if 0x41 <= b && b <= 0x46 {
        Some(b - 0x41 + 10)
    } else {
        None
    }
}

/// Decode a whole byte string of hexadecimal digit pairs.
pub fn decode_hex(s: &[u8]) -> (r: Option<Vec<u8>>)
    ensures
        match r {
            Some(v) => hex_decode(s@) == Some(v@),
            None => hex_decode(s@) is None,
        },
{
    let mut out: Vec<u8> = Vec::new();
    let mut i: usize = 0;
    proof {
        assert(s@.skip(0) =~= s@);
        assert forall|rest: Seq<u8>| out@ + rest =~= rest by {}
    }
    while i + 1 < s.len()
        invariant
            i % 2 == 0,
            i <= s@.len(),
            forall|rest: Seq<u8>|
                hex_decode(s@.skip(i as int)) == Some::<Seq<u8>>(rest) ==> hex_decode(s@)
                    == Some(out@ + rest),
            hex_decode(s@.skip(i as int)) is None ==> hex_decode(s@) is None,
        decreases s@.len() - i,
    {
        let hi = hex_digit(s[i]);
        let lo = hex_digit(s[i + 1]);
        proof {
            assert(s@.skip(i as int).len() >= 2);
            assert(s@.skip(i as int)[0] == s@[i as int]);
            assert(s@.skip(i as int)[1] == s@[i as int + 1]);
            assert(s@.skip(i as int).skip(2) =~= s@.skip(i as int + 2));
        }
        match (hi, lo) {
            (Some(h), Some(l)) => {
                let ghost prev = out@;
                out.push(16 * h + l);
                proof {
                    assert forall|rest: Seq<u8>|
                        hex_decode(s@.skip(i as int + 2)) == Some::<Seq<u8>>(
                            rest,
                        ) implies hex_decode(s@) == Some(out@ + rest) by {
                        assert(hex_decode(s@.skip(i as int)) == Some(
                            seq![(16 * h + l) as u8] + rest,
                        ));
                        assert(prev + (seq![(16 * h + l) as u8] + rest) =~= out@ + rest);
                    }
                }
                i += 2;
            },
            _ => {
                proof {
                    assert(hex_decode(s@.skip(i as int)) is None);
                }
                return None;
            },
        }
    }
    if i == s.len() {
        proof {
            assert(s@.skip(i as int) =~= Seq::<u8>::empty());
            assert(hex_decode(s@.skip(i as int)) == Some(Seq::<u8>::empty()));
            assert(out@ + Seq::<u8>::empty() =~= out@);
        }
        Some(out)
    } else {
        proof {
            assert(s@.skip(i as int).len() == 1);
        }
        None
    }
}

/// What the inbound signature header must spell: exactly twenty bytes of hex.
pub open spec fn sig_decode(s: Seq<u8>) -> Option<Seq<u8>> {
    if s.len() == 40 {
        hex_decode(s)
    } else {
        None
    }
}

/// Decode a signature header; accepts exactly forty hexadecimal digits.
pub fn decode_signature(s: &[u8]) -> (r: Option<Vec<u8>>)
    ensures
        match r {
            Some(v) => sig_decode(s@) == Some(v@) && v@.len() == 20,
            None => sig_decode(s@) is None,
        },
{
    if s.len() == 40 {
        let r = decode_hex(s);
        proof {
            lemma_hex_decode_len(s@);
        }
        r
    } else {
        None
    }
}

/// A successful decode yields one byte for every digit pair.
pub proof fn lemma_hex_decode_len(s: Seq<u8>)
    ensures
        hex_decode(s) matches Some(v) ==> v.len() * 2 == s.len(),
    decreases s.len(),
{
    if s.len() >= 2 {
        lemma_hex_decode_len(s.skip(2));
    }
}

/// The lowercase hexadecimal digit for a value below sixteen.
pub open spec fn hex_char(n: u8) -> char {
    if n < 10 {
        ((n + 0x30) as u8) as char
    } else {
        ((n + 0x57) as u8) as char
    }
}

/// Lowercase hexadecimal spelling of a byte string, two digits per byte.
pub open spec fn hex_chars(b: Seq<u8>) -> Seq<char>
    decreases b.len(),
{
    if b.len() == 0 {
        Seq::empty()
    } else {
        hex_chars(b.drop_last()) + seq![
            hex_char((b.last() / 16) as u8),
            hex_char((b.last() % 16) as u8),
        ]
    }
}

/// One lowercase hexadecimal digit as a string slice.
fn nibble_str(n: u8) -> (r: &'static str)
    requires
        n < 16,
    ensures
        r@ =~= seq![hex_char(n)],
{
    proof {
        reveal_strlit("0");
        reveal_strlit("1");
        reveal_strlit("2");
        reveal_strlit("3");
        reveal_strlit("4");
        reveal_strlit("5");
        reveal_strlit("6");
        reveal_strlit("7");
        reveal_strlit("8");
        reveal_strlit("9");
        reveal_strlit("a");
        reveal_strlit("b");
        reveal_strlit("c");
        reveal_strlit("d");
        reveal_strlit("e");
        reveal_strlit("f");
    }
    match n {
        0 => "0",
        1 => "1",
        2 => "2",
        3 => "3",
        4 => "4",
        5 => "5",
        6 => "6",
        7 => "7",
        8 => "8",
        9 => "9",
        10 => "a",
        11 => "b",
        12 => "c",
        13 => "d",
        14 => "e",
        _ => "f",
    }
}

/// Spell a byte string in lowercase hexadecimal.
pub fn encode_hex(b: &[u8]) -> (r: String)
    ensures
        r@ == hex_chars(b@),
{
    let mut out = String::new();
    let mut i: usize = 0;
    while i < b.len()
        invariant
            i <= b@.len(),
            out@ == hex_chars(b@.take(i as int)),
        decreases b@.len() - i,
    {
        let byte = b[i];
        out.append(nibble_str(byte / 16));
        out.append(nibble_str(byte % 16));
        i += 1;
        proof {
            assert(b@.take(i as int).drop_last() =~= b@.take(i as int - 1));
            assert(b@.take(i as int).last() == b@[i as int - 1]);
        }
    }
    proof {
        assert(b@.take(b@.len() as int) =~= b@);
    }
    out
}

/// The bytes of an ASCII character sequence, one byte per character.
pub open spec fn ascii_bytes(s: Seq<char>) -> Seq<u8> {
    Seq::new(s.len(), |i: int| s[i] as u8)
}

/// Relies on std's str::from_utf8: it succeeds exactly on valid UTF-8 and
/// yields the decoded characters.
#[verifier::external_body]
pub fn bytes_to_str(b: &[u8]) -> (r: Option<&str>)
    ensures
        r is Some <==> vstd::utf8::valid_utf8(b@),
        r matches Some(s) ==> s@ == vstd::utf8::decode_utf8(b@),
{
    std::str::from_utf8(b).ok()
}

/// The hexadecimal spelling of a byte string, read from the front.
pub proof fn lemma_hex_chars_front(b: Seq<u8>)
    requires
        b.len() > 0,
    ensures
        hex_chars(b) =~= seq![
            hex_char((b[0] / 16) as u8),
            hex_char((b[0] % 16) as u8),
        ] + hex_chars(b.drop_first()),
    decreases b.len(),
{
    if b.len() == 1 {
        assert(b.drop_last() =~= Seq::<u8>::empty());
        assert(b.drop_first() =~= Seq::<u8>::empty());
    } else {
        lemma_hex_chars_front(b.drop_last());
        assert(b.drop_last().drop_first() =~= b.drop_first().drop_last());
        assert(b.drop_first().last() == b.last());
        assert(b.drop_last()[0] == b[0]);
    }
}

/// Decoding the hexadecimal spelling of a byte string gives it back.
pub proof fn lemma_hex_round_trip(t: Seq<u8>)
    ensures
        hex_decode(ascii_bytes(hex_chars(t))) == Some(t),
        ascii_bytes(hex_chars(t)).len() == 2 * t.len(),
    decreases t.len(),
{
    if t.len() == 0 {
        assert(hex_chars(t) =~= Seq::<char>::empty());
        assert(ascii_bytes(hex_chars(t)) =~= Seq::<u8>::empty());
        assert(t =~= Seq::<u8>::empty());
    } else {
        lemma_hex_chars_front(t);
        lemma_hex_round_trip(t.drop_first());
        let hb = ascii_bytes(hex_chars(t));
        let hi = (t[0] / 16) as u8;
        let lo = (t[0] % 16) as u8;
        assert(hb.len() == hex_chars(t).len());
        assert(hex_chars(t.drop_first()).len() == ascii_bytes(
            hex_chars(t.drop_first()),
        ).len());
        assert(hb[0] == hex_char(hi) as u8);
        assert(hb[1] == hex_char(lo) as u8);
        assert(hex_val(hex_char(hi) as u8) == Some(hi));
        assert(hex_val(hex_char(lo) as u8) == Some(lo));
        assert(hb.skip(2) =~= ascii_bytes(hex_chars(t.drop_first())));
        assert(hex_decode(hb.skip(2)) == Some(t.drop_first()));
        assert(16 * hi + lo == t[0]);
        assert(seq![(16 * hi + lo) as u8] + t.drop_first() =~= t);
    }
}

/// Append a byte string.
pub fn push_bytes(out: &mut Vec<u8>, s: &[u8])
    ensures
        final(out)@ == old(out)@ + s@,
{
    let mut i: usize = 0;
    proof {
        assert(out@ =~= old(out)@ + s@.take(0));
    }
    while i < s.len()
        invariant
            i <= s@.len(),
            out@ == old(out)@ + s@.take(i as int),
        decreases s@.len() - i,
    {
        out.push(s[i]);
        i += 1;
        proof {
            assert(out@ =~= old(out)@ + s@.take(i as int));
        }
    }
    proof {
        assert(s@.take(s@.len() as int) =~= s@);
    }
}

/// ASCII digit byte for a value below ten.
pub open spec fn dec_digit(n: int) -> u8 {
    (0x30 + n) as u8
}

/// Decimal spelling of a natural number.
pub open spec fn dec_nat(n: int) -> Seq<u8>
    recommends
        n >= 0,
    decreases n,
{
    if n < 10 {
        seq![dec_digit(n)]
    } else {
        dec_nat(n / 10) + seq![dec_digit(n % 10)]
    }
}

/// Decimal spelling of an integer, with a leading minus sign when negative.
pub open spec fn dec_int(i: int) -> Seq<u8> {
    if i < 0 {
        seq![0x2d] + dec_nat(-i)
    } else {
        dec_nat(i)
    }
}

/// Append the decimal spelling of an unsigned number.
pub fn push_dec_u64(n: u64, out: &mut Vec<u8>)
    ensures
        final(out)@ == old(out)@ + dec_nat(n as int),
    decreases n,
{
    if n < 10 {
        out.push(0x30 + (n as u8));
        proof {
            assert(out@ =~= old(out)@ + dec_nat(n as int));
        }
    } else {
        push_dec_u64(n / 10, out);
        out.push(0x30 + ((n % 10) as u8));
        proof {
            assert(out@ =~= old(out)@ + dec_nat(n as int));
        }
    }
}

/// Append the decimal spelling of a signed number.
pub fn push_dec_i64(i: i64, out: &mut Vec<u8>)
    ensures
        final(out)@ == old(out)@ + dec_int(i as int),
{
    if i >= 0 {
        push_dec_u64(i as u64, out);
    } else {
        out.push(0x2d);
        let m: u64 = (-(i as i128)) as u64;
        proof {
            assert(m as int == -(i as int));
        }
        push_dec_u64(m, out);
        proof {
            assert(out@ =~= old(out)@ + dec_int(i as int));
        }
    }
}

} // verus!
