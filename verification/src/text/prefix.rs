//! Prefixes of texts and of their UTF-8 encodings.

use vstd::prelude::*;
use vstd::utf8::{decode_first_scalar, decode_utf8, encode_utf8, encode_utf8_decode_utf8,
    encode_utf8_first_scalar, encode_utf8_valid_utf8, length_of_first_scalar};

use super::scan::has_prefix;

verus! {

/// Byte string `s` begins with `p`.
pub open spec fn bytes_prefix(p: Seq<u8>, s: Seq<u8>) -> bool {
    p.len() <= s.len() && s.take(p.len() as int) == p
}

/// The encoding of a concatenation is the concatenation of the encodings.
pub proof fn lemma_encode_concat(a: Seq<char>, b: Seq<char>)
    ensures
        encode_utf8(a + b) == encode_utf8(a) + encode_utf8(b),
    decreases a.len(),
{
    if a.len() == 0 {
        assert(a + b =~= b);
        assert(encode_utf8(a + b) =~= encode_utf8(a) + encode_utf8(b));
    } else {
        assert((a + b).drop_first() =~= a.drop_first() + b);
        lemma_encode_concat(a.drop_first(), b);
        assert(encode_utf8(a + b) =~= encode_utf8(a) + encode_utf8(b));
    }
}

/// The encoding of a text that is not empty begins with that of its first
/// character, and the encoding of the rest follows.
proof fn lemma_encode_pop(s: Seq<char>)
    requires
        s.len() > 0,
    ensures
        encode_utf8(s).len() > 0,
        0 < length_of_first_scalar(encode_utf8(s)) <= encode_utf8(s).len(),
        decode_first_scalar(encode_utf8(s)) == s[0] as u32,
        encode_utf8(s).skip(length_of_first_scalar(encode_utf8(s))) == encode_utf8(s.drop_first()),
{
    encode_utf8_first_scalar(s);
    assert(encode_utf8(s).skip(length_of_first_scalar(encode_utf8(s))) =~= encode_utf8(
        s.drop_first(),
    ));
}

proof fn lemma_prefix_back(p: Seq<char>, s: Seq<char>)
    requires
        bytes_prefix(encode_utf8(p), encode_utf8(s)),
    ensures
        has_prefix(s, p),
    decreases p.len(),
{
    if p.len() == 0 {
        assert(s.subrange(0, 0) =~= p);
    } else {
        let bp = encode_utf8(p);
        let bs = encode_utf8(s);
        lemma_encode_pop(p);
        assert(s.len() > 0) by {
            if s.len() == 0 {
                assert(bs.len() == 0);
            }
        }
        lemma_encode_pop(s);
        let n = length_of_first_scalar(bp);
        encode_utf8_first_scalar(p);
        assert forall|i: int| 0 <= i < n implies bs[i] == bp[i] by {
            assert(bs.take(bp.len() as int)[i] == bs[i]);
        }
        assert(bs[0] == bp[0]);
        assert(length_of_first_scalar(bs) == n);
        assert(decode_first_scalar(bs) == decode_first_scalar(bp));
        encode_utf8_valid_utf8(s);
        encode_utf8_valid_utf8(p);
        encode_utf8_decode_utf8(s);
        encode_utf8_decode_utf8(p);
        assert(decode_utf8(bs)[0] == decode_first_scalar(bs) as char);
        assert(decode_utf8(bp)[0] == decode_first_scalar(bp) as char);
        assert(s[0] == p[0]);
        let rp = bp.skip(n);
        let rs = bs.skip(n);
        assert(rs.take(rp.len() as int) =~= rp) by {
            assert forall|i: int| 0 <= i < rp.len() implies rs[i] == rp[i] by {
                assert(bs.take(bp.len() as int)[i + n] == bs[i + n]);
            }
        }
        lemma_prefix_back(p.drop_first(), s.drop_first());
        let a = p.drop_first();
        let b = s.drop_first();
        assert(b.subrange(0, a.len() as int) == a);
        assert forall|i: int| 0 <= i < p.len() implies s[i] == p[i] by {
            if i > 0 {
                assert(b.subrange(0, a.len() as int)[i - 1] == b[i - 1]);
                assert(s[i] == b[i - 1]);
                assert(p[i] == a[i - 1]);
            }
        }
        assert(s.subrange(0, p.len() as int) =~= p);
    }
}

/// A text begins with another exactly where its encoding begins with the
/// encoding of the other.
pub proof fn lemma_prefix_encoding(p: Seq<char>, s: Seq<char>)
    ensures
        has_prefix(s, p) <==> bytes_prefix(encode_utf8(p), encode_utf8(s)),
{
    if has_prefix(s, p) {
        let rest = s.skip(p.len() as int);
        assert(s =~= p + rest);
        lemma_encode_concat(p, rest);
        assert(encode_utf8(s).take(encode_utf8(p).len() as int) =~= encode_utf8(p));
    }
    if bytes_prefix(encode_utf8(p), encode_utf8(s)) {
        lemma_prefix_back(p, s);
    }
}

} // verus!
