//! Byte-level views of text and the splicing operations the document models use.

use vstd::prelude::*;
use vstd::utf8::*;
use vstd::string::StringExecFns;

verus! {

/// The UTF-8 bytes of a character sequence.
pub open spec fn bytes_of(chars: Seq<char>) -> Seq<u8> {
    encode_utf8(chars)
}

/// Encoding a concatenation concatenates the encodings.
pub proof fn lemma_encode_concat(a: Seq<char>, b: Seq<char>)
    ensures
        encode_utf8(a + b) == encode_utf8(a) + encode_utf8(b),
    decreases a.len(),
{
    if a.len() == 0 {
        assert(a + b =~= b);
    } else {
        assert((a + b).drop_first() =~= a.drop_first() + b);
        assert((a + b)[0] == a[0]);
        lemma_encode_concat(a.drop_first(), b);
    }
}

/// Equal encodings come from equal character sequences.
pub proof fn lemma_encode_injective(a: Seq<char>, b: Seq<char>)
    requires
        encode_utf8(a) == encode_utf8(b),
    ensures
        a == b,
{
    encode_utf8_decode_utf8(a);
    encode_utf8_decode_utf8(b);
}

/// A character boundary of a concatenation, past its first part, is one of the second part.
pub proof fn lemma_boundary_in_suffix(a: Seq<char>, b: Seq<char>, k: int)
    requires
        0 <= k <= bytes_of(b).len(),
        is_char_boundary(bytes_of(a + b), bytes_of(a).len() + k),
    ensures
        is_char_boundary(bytes_of(b), k),
{
    broadcast use group_utf8_lib;

    lemma_encode_concat(a, b);
    let whole = bytes_of(a) + bytes_of(b);
    if k == 0 || k == bytes_of(b).len() {
        is_char_boundary_start_end_of_seq(bytes_of(b));
    } else {
        assert(whole[bytes_of(a).len() + k] == bytes_of(b)[k]);
        is_char_boundary_iff_not_is_continuation_byte(whole, bytes_of(a).len() + k);
        is_char_boundary_iff_not_is_continuation_byte(bytes_of(b), k);
    }
}

/// In valid UTF-8 the position right after an ASCII byte is a character boundary.
pub proof fn lemma_boundary_after_ascii(b: Seq<u8>, i: int)
    requires
        valid_utf8(b),
        0 <= i < b.len(),
        b[i] < 0x80,
    ensures
        is_char_boundary(b, i),
        is_char_boundary(b, i + 1),
{
    is_char_boundary_iff_not_is_continuation_byte(b, i);
    if i + 1 == b.len() {
        is_char_boundary_start_end_of_seq(b);
    } else {
        valid_utf8_split(b, i);
        let suffix = b.subrange(i, b.len() as int);
        assert(suffix[0] == b[i]);
        is_char_boundary_iff_not_is_continuation_byte(suffix, 1);
        reveal_with_fuel(is_char_boundary, 2);
        assert(is_char_boundary(suffix, 1));
        assert(suffix[1] == b[i + 1]);
        is_char_boundary_iff_not_is_continuation_byte(b, i + 1);
    }
}

/// Joining two valid UTF-8 byte sequences gives valid UTF-8, in which the boundaries of
/// both parts stay boundaries (those of the second moved up by the first's length).
pub proof fn lemma_concat_boundaries(a: Seq<u8>, b: Seq<u8>)
    requires
        valid_utf8(a),
        valid_utf8(b),
    ensures
        valid_utf8(a + b),
        is_char_boundary(a + b, a.len() as int),
        forall|k: int|
            0 <= k <= a.len() && #[trigger] is_char_boundary(a, k) ==> is_char_boundary(a + b, k),
        forall|k: int|
            0 <= k <= b.len() && #[trigger] is_char_boundary(b, k) ==> is_char_boundary(
                a + b,
                a.len() + k,
            ),
{
    valid_utf8_concat(a, b);
    let ab = a + b;
    is_char_boundary_start_end_of_seq(ab);
    is_char_boundary_start_end_of_seq(a);
    is_char_boundary_start_end_of_seq(b);
    if b.len() > 0 {
        is_char_boundary_iff_not_is_continuation_byte(b, 0);
        assert(ab[a.len() as int] == b[0]);
        is_char_boundary_iff_not_is_continuation_byte(ab, a.len() as int);
    } else {
        assert(ab =~= a);
    }
    assert forall|k: int|
        0 <= k <= a.len() && #[trigger] is_char_boundary(a, k) implies is_char_boundary(ab, k) by {
        if k < a.len() {
            assert(ab[k] == a[k]);
            is_char_boundary_iff_not_is_continuation_byte(a, k);
            is_char_boundary_iff_not_is_continuation_byte(ab, k);
        }
    }
    assert forall|k: int|
        0 <= k <= b.len() && #[trigger] is_char_boundary(b, k) implies is_char_boundary(
        ab,
        a.len() + k,
    ) by {
        if k < b.len() {
            assert(ab[a.len() + k] == b[k]);
            is_char_boundary_iff_not_is_continuation_byte(b, k);
            is_char_boundary_iff_not_is_continuation_byte(ab, a.len() + k);
        }
    }
}

/// Splitting valid UTF-8 at a boundary gives two valid parts, each keeping the boundaries
/// that fall in it.
pub proof fn lemma_split_boundaries(t: Seq<u8>, p: int)
    requires
        valid_utf8(t),
        0 <= p <= t.len(),
        is_char_boundary(t, p),
    ensures
        valid_utf8(t.take(p)),
        valid_utf8(t.skip(p)),
        forall|k: int|
            0 <= k <= p && #[trigger] is_char_boundary(t, k) ==> is_char_boundary(t.take(p), k),
        forall|k: int|
            p <= k <= t.len() && #[trigger] is_char_boundary(t, k) ==> is_char_boundary(
                t.skip(p),
                k - p,
            ),
{
    valid_utf8_split(t, p);
    assert(t.take(p) =~= t.subrange(0, p));
    assert(t.skip(p) =~= t.subrange(p, t.len() as int));
    let x = t.take(p);
    let y = t.skip(p);
    is_char_boundary_start_end_of_seq(x);
    is_char_boundary_start_end_of_seq(y);
    assert forall|k: int|
        0 <= k <= p && #[trigger] is_char_boundary(t, k) implies is_char_boundary(x, k) by {
        if k < p {
            assert(x[k] == t[k]);
            is_char_boundary_iff_not_is_continuation_byte(t, k);
            is_char_boundary_iff_not_is_continuation_byte(x, k);
        }
    }
    assert forall|k: int|
        p <= k <= t.len() && #[trigger] is_char_boundary(t, k) implies is_char_boundary(
        y,
        k - p,
    ) by {
        if k < t.len() {
            assert(y[k - p] == t[k]);
            is_char_boundary_iff_not_is_continuation_byte(t, k);
            is_char_boundary_iff_not_is_continuation_byte(y, k - p);
        }
    }
}

/// Every character takes at least one byte.
pub proof fn lemma_chars_le_bytes(cs: Seq<char>)
    ensures
        cs.len() <= bytes_of(cs).len(),
    decreases cs.len(),
{
    if cs.len() > 0 {
        lemma_chars_le_bytes(cs.drop_first());
        assert(encode_scalar(cs[0] as u32).len() >= 1);
    }
}

/// Whether two strings hold the same characters.
pub fn same_text(a: &str, b: &str) -> (r: bool)
    ensures
        r == (a@ == b@),
{
    let x = a.as_bytes();
    let y = b.as_bytes();
    if x.len() != y.len() {
        proof {
            if a@ == b@ {
                assert(bytes_of(a@) == bytes_of(b@));
            }
        }
        return false;
    }
    let mut i: usize = 0;
    while i < x.len()
        invariant
            x@ == bytes_of(a@),
            y@ == bytes_of(b@),
            x@.len() == y@.len(),
            i <= x@.len(),
            forall|k: int| 0 <= k < i ==> x@[k] == y@[k],
        decreases x.len() - i,
    {
        if x[i] != y[i] {
            proof {
                if a@ == b@ {
                    assert(x@[i as int] == y@[i as int]);
                }
            }
            return false;
        }
        i = i + 1;
    }
    proof {
        assert(x@ =~= y@);
        lemma_encode_injective(a@, b@);
    }
    true
}

/// A new string holding `s`.
pub fn owned(s: &str) -> (r: String)
    ensures
        r@ == s@,
{
    String::from_str(s)
}

/// A new string holding the bytes `start..end` of `s`; both ends must be character
/// boundaries.
pub fn byte_slice(s: &str, start: usize, end: usize) -> (r: String)
    requires
        start <= end <= bytes_of(s@).len(),
        is_char_boundary(bytes_of(s@), start as int),
        is_char_boundary(bytes_of(s@), end as int),
    ensures
        bytes_of(r@) == bytes_of(s@).subrange(start as int, end as int),
{
    broadcast use group_utf8_lib;

    let (head, rest) = s.split_at(start);
    proof {
        lemma_encode_concat(head@, rest@);
        assert(bytes_of(s@) =~= bytes_of(head@) + bytes_of(rest@));
        lemma_encode_injective(head@ + rest@, s@);
        assert(bytes_of(rest@) =~= bytes_of(s@).skip(start as int));
        lemma_boundary_in_suffix(head@, rest@, end - start);
    }
    let (mid, tail) = rest.split_at(end - start);
    proof {
        lemma_encode_concat(mid@, tail@);
        assert(bytes_of(mid@) =~= bytes_of(s@).subrange(start as int, end as int));
    }
    String::from_str(mid)
}

/// `s` with `piece` inserted at byte `pos`, which must be a character boundary.
pub fn splice_in(s: &str, pos: usize, piece: &str) -> (r: String)
    requires
        is_char_boundary(bytes_of(s@), pos as int),
    ensures
        bytes_of(r@) == bytes_of(s@).take(pos as int) + bytes_of(piece@) + bytes_of(s@).skip(
            pos as int,
        ),
{
    let (a, b) = s.split_at(pos);
    let mut r = String::from_str(a);
    r.append(piece);
    r.append(b);
    proof {
        lemma_encode_concat(a@, piece@);
        lemma_encode_concat(a@ + piece@, b@);
    }
    r
}

/// The pieces joined in order.
pub open spec fn joined(ps: Seq<Seq<char>>) -> Seq<char>
    decreases ps.len(),
{
    if ps.len() == 0 {
        Seq::empty()
    } else {
        joined(ps.drop_last()) + ps.last()
    }
}

/// Texts one per line: joined with newlines between them.
pub open spec fn lines_joined(texts: Seq<Seq<char>>) -> Seq<char>
    decreases texts.len(),
{
    if texts.len() == 0 {
        Seq::empty()
    } else if texts.len() == 1 {
        texts[0]
    } else {
        lines_joined(texts.drop_last()) + seq!['\n'] + texts.last()
    }
}

/// A newline is the single byte 10.
pub proof fn lemma_newline_bytes()
    ensures
        bytes_of(seq!['\n']) == seq![10u8],
{
    let one = seq!['\n'];
    assert(one.drop_first() =~= Seq::<char>::empty());
    assert(encode_utf8(one) == encode_scalar(one[0] as u32) + encode_utf8(one.drop_first()));
    assert(('\n' as u32) == 10u32);
    assert((10u32 & 0x7Fu32) == 10u32) by (bit_vector);
    assert(encode_scalar(10u32) =~= seq![10u8]);
    assert(encode_utf8(one) =~= seq![10u8]);
}

} // verus!
