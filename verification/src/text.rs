//! Text helpers over `str`: equality, byte-range slices and decimal numerals.
use vstd::prelude::*;
use vstd::utf8::*;
use vstd::string::StringSliceAdditionalSpecFns;

verus! {

broadcast use vstd::utf8::encode_utf8_decode_utf8, vstd::utf8::encode_utf8_valid_utf8;

/// Whether two strings hold the same characters, by comparing their bytes.
pub fn text_eq(a: &str, b: &str) -> (r: bool)
    ensures
        r == (a@ == b@),
{
    let x = a.as_bytes();
    let y = b.as_bytes();
    proof {
        assert(decode_utf8(encode_utf8(a@)) == a@);
        assert(decode_utf8(encode_utf8(b@)) == b@);
    }
    if x.len() != y.len() {
        return false;
    }
    let mut i: usize = 0;
    while i < x.len()
        invariant
            x@ == encode_utf8(a@),
            y@ == encode_utf8(b@),
            x@.len() == y@.len(),
            i <= x@.len(),
            forall|j: int| 0 <= j < i ==> x@[j] == y@[j],
        decreases x@.len() - i,
    {
        if x[i] != y[i] {
            return false;
        }
        i = i + 1;
    }
    assert(x@ =~= y@);
    true
}

/// The characters whose UTF-8 bytes are those of `s` from byte `start` to byte `end`.
pub open spec fn byte_slice(s: Seq<char>, start: int, end: int) -> Seq<char> {
    decode_utf8(encode_utf8(s).subrange(start, end))
}

/// The bytes between two character boundaries of valid UTF-8 are valid UTF-8.
proof fn lemma_sub_utf8(bytes: Seq<u8>, lo: int, hi: int)
    requires
        valid_utf8(bytes),
        0 <= lo <= hi <= bytes.len(),
        is_char_boundary(bytes, lo),
        is_char_boundary(bytes, hi),
    ensures
        valid_utf8(bytes.subrange(lo, hi)),
{
    let p = bytes.subrange(0, hi);
    valid_utf8_split(bytes, hi);
    is_char_boundary_start_end_of_seq(p);
    if lo < hi {
        is_char_boundary_iff_not_is_continuation_byte(bytes, lo);
        is_char_boundary_iff_not_is_continuation_byte(p, lo);
        assert(p[lo] == bytes[lo]);
    }
    valid_utf8_split(p, lo);
    assert(p.subrange(lo, p.len() as int) =~= bytes.subrange(lo, hi));
}

/// A character boundary of valid UTF-8 between two others is a character
/// boundary of the bytes between them.
proof fn lemma_sub_boundary(bytes: Seq<u8>, lo: int, hi: int, k: int)
    requires
        valid_utf8(bytes),
        0 <= lo <= k <= hi <= bytes.len(),
        is_char_boundary(bytes, k),
        valid_utf8(bytes.subrange(lo, hi)),
    ensures
        is_char_boundary(bytes.subrange(lo, hi), k - lo),
{
    let x = bytes.subrange(lo, hi);
    is_char_boundary_start_end_of_seq(x);
    if lo < k < hi {
        is_char_boundary_iff_not_is_continuation_byte(bytes, k);
        is_char_boundary_iff_not_is_continuation_byte(x, k - lo);
        assert(x[k - lo] == bytes[k]);
    }
}

/// Two byte slices that meet at a character boundary make up the slice from
/// the start of the first to the end of the second.
pub proof fn lemma_byte_slice_concat(s: Seq<char>, a: int, m: int, c: int)
    requires
        0 <= a <= m <= c <= encode_utf8(s).len(),
        is_char_boundary(encode_utf8(s), a),
        is_char_boundary(encode_utf8(s), m),
        is_char_boundary(encode_utf8(s), c),
    ensures
        byte_slice(s, a, m) + byte_slice(s, m, c) == byte_slice(s, a, c),
{
    let b = encode_utf8(s);
    assert(valid_utf8(b));
    lemma_sub_utf8(b, a, c);
    let x = b.subrange(a, c);
    lemma_sub_boundary(b, a, c, m);
    decode_utf8_split(x, m - a);
    assert(x.subrange(0, m - a) =~= b.subrange(a, m));
    assert(x.subrange(m - a, x.len() as int) =~= b.subrange(m, c));
}

/// The slice of all the bytes of `s` is `s`, and the empty slice at the
/// start is empty.
pub proof fn lemma_byte_slice_whole(s: Seq<char>)
    ensures
        byte_slice(s, 0, encode_utf8(s).len() as int) == s,
        byte_slice(s, 0, 0) == Seq::<char>::empty(),
{
    let b = encode_utf8(s);
    assert(b.subrange(0, b.len() as int) =~= b);
    assert(b.subrange(0, 0) =~= Seq::<u8>::empty());
    assert(decode_utf8(Seq::<u8>::empty()) =~= Seq::<char>::empty());
}

/// The part of `s` from byte `start` up to byte `end`, both on character boundaries.
pub fn slice_bytes<'a>(s: &'a str, start: usize, end: usize) -> (r: &'a str)
    requires
        start <= end <= encode_utf8(s@).len(),
        is_char_boundary(encode_utf8(s@), start as int),
        is_char_boundary(encode_utf8(s@), end as int),
    ensures
        r@ == byte_slice(s@, start as int, end as int),
{
    let ghost b = encode_utf8(s@);
    proof {
        broadcast use vstd::utf8::valid_utf8_split;
        assert(valid_utf8(b));
        assert(valid_utf8(b.subrange(0, end as int)));
        assert(b.subrange(0, end as int).subrange(0, start as int) =~= b.subrange(0, start as int));
    }
    let (head, _) = s.split_at(end);
    proof {
        assert(head.spec_bytes() =~= b.subrange(0, end as int));
    }
    proof {
        let h = b.subrange(0, end as int);
        broadcast use vstd::utf8::is_char_boundary_iff_not_is_continuation_byte,
            vstd::utf8::is_char_boundary_start_end_of_seq;
        assert(valid_utf8(h));
        if start < end {
            assert(h[start as int] == b[start as int]);
            assert(!is_continuation_byte(b[start as int]));
        }
        assert(is_char_boundary(h, start as int));
    }
    let (_, mid) = head.split_at(start);
    proof {
        assert(mid.spec_bytes() =~= b.subrange(start as int, end as int));
        assert(decode_utf8(encode_utf8(mid@)) == mid@);
    }
    mid
}

/// The decimal numeral of `n`.
pub open spec fn decimal(n: nat) -> Seq<char>
    decreases n,
{
    if n < 10 {
        digit(n)
    } else {
        decimal(n / 10) + digit(n % 10)
    }
}

/// The numeral of a single digit.
pub open spec fn digit(d: nat) -> Seq<char> {
    if d == 0 {
        "0"@
    } else if d == 1 {
        "1"@
    } else if d == 2 {
        "2"@
    } else if d == 3 {
        "3"@
    } else if d == 4 {
        "4"@
    } else if d == 5 {
        "5"@
    } else if d == 6 {
        "6"@
    } else if d == 7 {
        "7"@
    } else if d == 8 {
        "8"@
    } else {
        "9"@
    }
}

fn push_digit(out: &mut String, d: u128)
    requires
        d < 10,
    ensures
        final(out)@ == old(out)@ + digit(d as nat),
{
    if d == 0 {
        out.append("0");
    } else if d == 1 {
        out.append("1");
    } else if d == 2 {
        out.append("2");
    } else if d == 3 {
        out.append("3");
    } else if d == 4 {
        out.append("4");
    } else if d == 5 {
        out.append("5");
    } else if d == 6 {
        out.append("6");
    } else if d == 7 {
        out.append("7");
    } else if d == 8 {
        out.append("8");
    } else {
        out.append("9");
    }
}

/// Appends the decimal numeral of `n`.
pub fn push_decimal(out: &mut String, n: u128)
    ensures
        final(out)@ == old(out)@ + decimal(n as nat),
    decreases n,
{
    if n >= 10 {
        push_decimal(out, n / 10);
    }
    push_digit(out, n % 10);
    assert(out@ =~= old(out)@ + decimal(n as nat));
}

} // verus!
