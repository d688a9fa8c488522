//! Case-insensitive substring matching (the name filter) and the character
//! classification helpers shared by the handlers.

use vstd::prelude::*;

verus! {

use vstd::string::StrSliceExecFns;
use vstd::utf8::encode_utf8;

/// ASCII lower-casing of one byte; bytes outside `A`..`Z` are unchanged.
pub open spec fn lower_byte(b: u8) -> u8 {
    if 65 <= b <= 90 {
        (b + 32) as u8
    } else {
        b
    }
}

pub open spec fn lower_bytes(s: Seq<u8>) -> Seq<u8> {
    s.map_values(|b: u8| lower_byte(b))
}

pub open spec fn match_at(h: Seq<u8>, n: Seq<u8>, i: int) -> bool {
    0 <= i && i + n.len() <= h.len() && h.subrange(i, i + n.len()) == n
}

pub open spec fn bytes_contain(h: Seq<u8>, n: Seq<u8>) -> bool {
    exists|i: int| match_at(h, n, i)
}

/// The case-insensitive substring test behind the name filter: the pattern
/// occurs in the name once both are ASCII-lower-cased byte-wise.
pub open spec fn spec_name_matches(name: Seq<char>, pat: Seq<char>) -> bool {
    bytes_contain(lower_bytes(encode_utf8(name)), lower_bytes(encode_utf8(pat)))
}

fn lower_vec(v: &Vec<u8>) -> (r: Vec<u8>)
    ensures
        r@ == lower_bytes(v@),
{
    let mut r: Vec<u8> = Vec::new();
    let mut i: usize = 0;
    while i < v.len()
        invariant
            i <= v@.len(),
            r@ == lower_bytes(v@.take(i as int)),
        decreases v@.len() - i,
    {
        let b = v[i];
        let lb: u8 = if 65 <= b && b <= 90 {
            b + 32
        } else {
            b
        };
        r.push(lb);
        proof {
            assert(r@ =~= lower_bytes(v@.take(i + 1)));
        }
        i = i + 1;
    }
    proof {
        assert(v@.take(v@.len() as int) =~= v@);
    }
    r
}

fn contains_bytes(h: &Vec<u8>, n: &Vec<u8>) -> (r: bool)
    ensures
        r == bytes_contain(h@, n@),
{
    if n.len() == 0 {
        proof {
            assert(h@.subrange(0, 0) =~= n@);
            assert(match_at(h@, n@, 0));
        }
        return true;
    }
    if n.len() > h.len() {
        proof {
            assert(forall|k: int| !match_at(h@, n@, k));
        }
        return false;
    }
    let bound = h.len() - n.len();
    let mut i: usize = 0;
    while i <= bound
        invariant
            i <= bound + 1,
            bound == h@.len() - n@.len(),
            1 <= n@.len() <= h@.len() <= usize::MAX,
            forall|k: int| k < i ==> !match_at(h@, n@, k),
        decreases bound + 1 - i,
    {
        let mut j: usize = 0;
        let mut hit = true;
        while j < n.len()
            invariant
                j <= n@.len(),
                i <= bound,
                bound == h@.len() - n@.len(),
                1 <= n@.len() <= h@.len() <= usize::MAX,
                hit ==> forall|k: int| 0 <= k < j ==> h@[i + k] == n@[k],
                !hit ==> !match_at(h@, n@, i as int),
            decreases n@.len() - j,
        {
            if h[i + j] != n[j] {
                proof {
                    assert(!match_at(h@, n@, i as int)) by {
                        if match_at(h@, n@, i as int) {
                            assert(h@.subrange(i as int, i + n@.len())[j as int] == n@[j as int]);
                        }
                    }
                }
                hit = false;
                j = n.len();
            } else {
                j = j + 1;
            }
        }
        if hit {
            proof {
                assert(h@.subrange(i as int, i + n@.len()) =~= n@);
                assert(match_at(h@, n@, i as int));
            }
            return true;
        }
        i = i + 1;
    }
    proof {
        assert forall|k: int| !match_at(h@, n@, k) by {
            if k >= i {
                assert(k + n@.len() > h@.len());
            }
        }
    }
    false
}

/// Whether `pat` occurs in `name` up to ASCII case, the semantics of the
/// catalog's case-insensitive name search.
pub fn name_contains_ci(name: &str, pat: &str) -> (r: bool)
    ensures
        r == spec_name_matches(name@, pat@),
{
    let hb = name.as_bytes_vec();
    let nb = pat.as_bytes_vec();
    let hl = lower_vec(&hb);
    let nl = lower_vec(&nb);
    contains_bytes(&hl, &nl)
}

pub open spec fn is_alnum_byte(b: u8) -> bool {
    48 <= b <= 57 || 65 <= b <= 90 || 97 <= b <= 122
}

pub open spec fn spec_all_alnum(s: Seq<u8>) -> bool {
    forall|i: int| 0 <= i < s.len() ==> is_alnum_byte(#[trigger] s[i])
}

/// Whether every byte of the string is an ASCII letter or digit; an empty
/// string passes.
pub fn is_ascii_alphanumeric(s: &str) -> (r: bool)
    ensures
        r == spec_all_alnum(encode_utf8(s@)),
{
    let b = s.as_bytes_vec();
    proof {
        assert(b@ == encode_utf8(s@));
    }
    let mut i: usize = 0;
    while i < b.len()
        invariant
            b@ == encode_utf8(s@),
            i <= b@.len(),
            forall|k: int| 0 <= k < i ==> is_alnum_byte(#[trigger] b@[k]),
        decreases b@.len() - i,
    {
        let c = b[i];
        if !(48 <= c && c <= 57 || 65 <= c && c <= 90 || 97 <= c && c <= 122) {
            proof {
                assert(!spec_all_alnum(b@)) by {
                    assert(!is_alnum_byte(b@[i as int]));
                }
            }
            return false;
        }
        i = i + 1;
    }
    true
}

/// Exact string equality, decided byte-wise.
pub fn str_eq(a: &str, b: &str) -> (r: bool)
    ensures
        r == (a@ == b@),
{
    let va = a.as_bytes_vec();
    let vb = b.as_bytes_vec();
    if va.len() != vb.len() {
        proof {
            if a@ == b@ {
                assert(encode_utf8(a@) == encode_utf8(b@));
            }
        }
        return false;
    }
    let mut i: usize = 0;
    while i < va.len()
        invariant
            i <= va@.len() == vb@.len(),
            va@ == encode_utf8(a@),
            vb@ == encode_utf8(b@),
            forall|k: int| 0 <= k < i ==> va@[k] == vb@[k],
        decreases va@.len() - i,
    {
        if va[i] != vb[i] {
            proof {
                if a@ == b@ {
                    assert(encode_utf8(a@) == encode_utf8(b@));
                }
            }
            return false;
        }
        i = i + 1;
    }
    proof {
        assert(va@ =~= vb@);
        vstd::utf8::encode_utf8_decode_utf8(a@);
        vstd::utf8::encode_utf8_decode_utf8(b@);
    }
    true
}

} // verus!
