//! The salted SHA-1 integrity digests: the response checksum over a result
//! set and the credential token derivation.

use vstd::prelude::*;

use sha1::Digest;

verus! {

use vstd::string::StrSliceExecFns;
use vstd::string::StringExecFns;
use crate::model::Level;
use crate::num::{i64_to_string, lemma_int_chars_len, spec_int_chars};

/// The lowercase-hex SHA-1 digest of a string; a function of the input alone.
pub uninterp spec fn sha1_hex_of(s: Seq<char>) -> Seq<char>;

/// Relies on sha1::Sha1 (crate sha1): `update` then `finalize` yields the
/// 20-byte SHA-1 digest of the input, rendered here as 40 lowercase hex
/// characters; the result depends on the input bytes alone.
#[verifier::external_body]
fn sha1_hex(s: &str) -> (r: String)
    ensures
        r@ == sha1_hex_of(s@),
        r@.len() == 40,
{
    let mut hasher = sha1::Sha1::new();
    hasher.update(s.as_bytes());
    let digest = hasher.finalize();
    let mut out = String::new();
    for b in digest.iter() {
        out.push_str(&format!("{:02x}", b));
    }
    out
}

/// Append the salt, then digest.
pub fn salt_and_sha1(body: &str, salt: &str) -> (r: String)
    ensures
        r@ == sha1_hex_of(body@ + salt@),
        r@.len() == 40,
{
    let mut s = body.to_owned();
    s.append(salt);
    sha1_hex(s.as_str())
}

/// The credential token: the password with its fixed salt appended, SHA-1
/// digested and hex rendered.
pub fn hash_gjp2(password: &str) -> (r: String)
    ensures
        r@ == sha1_hex_of(password@ + "mI29fmAnxgTs"@),
{
    salt_and_sha1(password, "mI29fmAnxgTs")
}

/// One level's contribution to the checksum pre-image: first and last
/// character of the decimal id, then the star count, then `1`/`0` for the
/// verified-coins flag.
pub open spec fn spec_hash_entry(l: Level) -> Seq<char> {
    let idc = spec_int_chars(l.id as int);
    seq![idc[0], idc[idc.len() - 1]] + spec_int_chars(l.stars as int) + (if l.verified_coins {
        seq!['1']
    } else {
        seq!['0']
    })
}

/// The checksum pre-image of a result sequence, in result order.
pub open spec fn spec_hash_payload(s: Seq<Level>) -> Seq<char>
    decreases s.len(),
{
    if s.len() == 0 {
        Seq::empty()
    } else {
        spec_hash_payload(s.drop_last()) + spec_hash_entry(s.last())
    }
}

/// The response integrity hash: the salted digest of the pre-image drawn
/// from ids, stars and verified-coins flags, in result order.
pub fn generate_hash(levels: &Vec<Level>) -> (r: String)
    ensures
        r@ == sha1_hex_of(spec_hash_payload(levels@) + "xI25fpAapCQg"@),
{
    let mut payload = String::new();
    let mut i: usize = 0;
    while i < levels.len()
        invariant
            i <= levels@.len(),
            payload@ == spec_hash_payload(levels@.take(i as int)),
        decreases levels@.len() - i,
    {
        let l = &levels[i];
        let ids = i64_to_string(l.id as i64);
        proof {
            lemma_int_chars_len(l.id as int);
        }
        let n = ids.as_str().unicode_len();
        let first = ids.as_str().substring_char(0, 1);
        let last = ids.as_str().substring_char(n - 1, n);
        let stars = i64_to_string(l.stars as i64);
        let flag: &str = if l.verified_coins {
            "1"
        } else {
            "0"
        };
        payload.append(first);
        payload.append(last);
        payload.append(stars.as_str());
        payload.append(flag);
        proof {
            reveal_strlit("0");
            reveal_strlit("1");
            assert(levels@.take(i + 1).drop_last() =~= levels@.take(i as int));
            assert(levels@.take(i + 1).last() == levels@[i as int]);
            assert(payload@ =~= spec_hash_payload(levels@.take(i + 1)));
        }
        i = i + 1;
    }
    proof {
        assert(levels@.take(levels@.len() as int) =~= levels@);
    }
    salt_and_sha1(payload.as_str(), "xI25fpAapCQg")
}

/// The integrity hash reads only each level's id, star count and
/// verified-coins flag: two result sequences that agree on those, in order,
/// yield the same digest.
pub proof fn lemma_hash_depends_on_fields_only(a: Seq<Level>, b: Seq<Level>)
    requires
        a.len() == b.len(),
        forall|i: int|
            0 <= i < a.len() ==> (#[trigger] a[i]).id == (#[trigger] b[i]).id && a[i].stars
                == b[i].stars && a[i].verified_coins == b[i].verified_coins,
    ensures
        spec_hash_payload(a) == spec_hash_payload(b),
    decreases a.len(),
{
    if a.len() > 0 {
        lemma_hash_depends_on_fields_only(a.drop_last(), b.drop_last());
        assert(spec_hash_entry(a.last()) == spec_hash_entry(b.last()));
    }
}

} // verus!
