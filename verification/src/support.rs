//! The host-support decision: whether a reported OS version string meets the
//! minimum the capture API needs, `"12.3"`. The comparison is the byte-wise
//! lexicographic order that std gives `Vec<u8>` — a textual, not numeric,
//! comparison, kept as such deliberately.

use vstd::prelude::*;

verus! {

/// Lexicographic byte-wise "greater or equal", as std orders `Vec<u8>`:
/// compare position by position; at the first difference the larger byte
/// wins; if one string is a prefix of the other, the longer one is greater.
pub open spec fn lex_ge(a: Seq<u8>, b: Seq<u8>) -> bool
    decreases b.len(),
{
    if b.len() == 0 {
        true
    } else if a.len() == 0 {
        false
    } else if a[0] != b[0] {
        a[0] > b[0]
    } else {
        lex_ge(a.subrange(1, a.len() as int), b.subrange(1, b.len() as int))
    }
}

/// With the first `i` bytes equal, the order of the suffixes from `i` is the
/// order of the suffixes from `i + 1`.
proof fn lemma_lex_ge_unfold(a: Seq<u8>, b: Seq<u8>, i: int)
    requires
        0 <= i < a.len(),
        i < b.len(),
        a[i] == b[i],
    ensures
        lex_ge(a.subrange(i, a.len() as int), b.subrange(i, b.len() as int))
            == lex_ge(a.subrange(i + 1, a.len() as int), b.subrange(i + 1, b.len() as int)),
{
    let sa = a.subrange(i, a.len() as int);
    let sb = b.subrange(i, b.len() as int);
    assert(sa[0] == a[i]);
    assert(sb[0] == b[i]);
    assert(sa.subrange(1, sa.len() as int) =~= a.subrange(i + 1, a.len() as int));
    assert(sb.subrange(1, sb.len() as int) =~= b.subrange(i + 1, b.len() as int));
}

/// Compares two byte strings in lexicographic order, returning whether
/// `a >= b` as std's `Ord` on `Vec<u8>` would.
pub fn lex_ge_bytes(a: &Vec<u8>, b: &Vec<u8>) -> (r: bool)
    ensures
        r == lex_ge(a@, b@),
{
    let mut i: usize = 0;
    proof {
        assert(a@.subrange(0, a@.len() as int) =~= a@);
        assert(b@.subrange(0, b@.len() as int) =~= b@);
    }
    while i < a.len() && i < b.len()
        invariant
            i <= a@.len(),
            i <= b@.len(),
            lex_ge(a@, b@) == lex_ge(
                a@.subrange(i as int, a@.len() as int),
                b@.subrange(i as int, b@.len() as int),
            ),
        decreases a@.len() - i,
    {
        let x = a[i];
        let y = b[i];
        proof {
            assert(a@.subrange(i as int, a@.len() as int)[0] == a@[i as int]);
            assert(b@.subrange(i as int, b@.len() as int)[0] == b@[i as int]);
        }
        if x > y {
            return true;
        }
        if x < y {
            return false;
        }
        proof {
            lemma_lex_ge_unfold(a@, b@, i as int);
        }
        i += 1;
    }
    if i < b.len() {
        proof {
            assert(a@.subrange(i as int, a@.len() as int).len() == 0);
        }
        false
    } else {
        proof {
            assert(b@.subrange(i as int, b@.len() as int).len() == 0);
        }
        true
    }
}

/// The minimum supported OS version as a byte string: the four bytes of
/// `"12.3"`.
pub open spec fn min_version_bytes() -> Seq<u8> {
    seq![49u8, 50u8, 46u8, 51u8]
}

/// Decides host support from a reported OS version string: true exactly when
/// the bytes compare lexicographically at or above the minimum supported
/// version.
pub fn version_meets_minimum(os_version: &Vec<u8>) -> (r: bool)
    ensures
        r == lex_ge(os_version@, min_version_bytes()),
{
    let mut min: Vec<u8> = Vec::new();
    min.push(49);
    min.push(50);
    min.push(46);
    min.push(51);
    proof {
        assert(min@ =~= min_version_bytes());
    }
    lex_ge_bytes(os_version, &min)
}

} // verus!
