//! The wire encoding: field-indexed level records, the parallel owner block,
//! the pagination footer, and the assembled `#`-separated response.

use vstd::prelude::*;

verus! {

use vstd::string::StrSliceExecFns;
use vstd::string::StringExecFns;
use crate::model::Level;
use crate::hash::{generate_hash, sha1_hex_of, spec_hash_payload};
use crate::num::{i64_to_string, spec_int_chars, u64_to_string, spec_nat_chars};

pub open spec fn spec_bool01(b: bool) -> Seq<char> {
    if b {
        seq!['1']
    } else {
        seq!['0']
    }
}

fn bool01(b: bool) -> (r: &'static str)
    ensures
        r@ == spec_bool01(b),
{
    let r: &'static str = if b {
        "1"
    } else {
        "0"
    };
    proof {
        reveal_strlit("0");
        reveal_strlit("1");
        assert(r@ =~= spec_bool01(b));
    }
    r
}

/// One level as a colon-separated, field-indexed record. The index keys are
/// declared once, here: 1 id, 2 name, 6 owner id, 9 difficulty, 10 downloads,
/// 12 demon sub-difficulty, 14 likes, 15 length bucket, 18 stars,
/// 19 featured, 37 coins, 38 verified coins, 40 two-player, 42 epic rating,
/// 45 object count, 46 original.
pub open spec fn spec_level_record(l: Level) -> Seq<char> {
    spec_level_record_head(l) + spec_level_record_tail(l)
}

pub open spec fn spec_level_record_head(l: Level) -> Seq<char> {
    seq!['1', ':'] + spec_int_chars(l.id as int) + seq![':', '2', ':'] + l.level_name@ + seq![':', '6', ':']
        + spec_int_chars(l.user_id as int) + seq![':', '9', ':'] + spec_int_chars(
        l.difficulty as int,
    ) + seq![':', '1', '0', ':'] + spec_int_chars(l.downloads as int) + seq![':', '1', '2', ':']
        + spec_int_chars(l.demon_difficulty as int) + seq![':', '1', '4', ':'] + spec_int_chars(
        l.likes as int,
    )
}

pub open spec fn spec_level_record_tail(l: Level) -> Seq<char> {
    seq![':', '1', '5', ':'] + spec_int_chars(l.length as int) + seq![':', '1', '8', ':']
        + spec_int_chars(l.stars as int) + seq![':', '1', '9', ':'] + spec_bool01(l.featured)
        + seq![':', '3', '7', ':'] + spec_bool01(l.coins) + seq![':', '3', '8', ':'] + spec_bool01(
        l.verified_coins,
    ) + seq![':', '4', '0', ':'] + spec_bool01(l.two_player) + seq![':', '4', '2', ':']
        + spec_int_chars(l.epic_rating as int) + seq![':', '4', '5', ':'] + spec_int_chars(
        l.objects as int,
    ) + seq![':', '4', '6', ':'] + spec_bool01(l.original)
}

fn level_to_gd_head(l: &Level) -> (r: String)
    ensures
        r@ == spec_level_record_head(*l),
{
    let mut r = "1:".to_owned();
    r.append(i64_to_string(l.id as i64).as_str());
    r.append(":2:");
    r.append(l.level_name.as_str());
    r.append(":6:");
    r.append(i64_to_string(l.user_id as i64).as_str());
    r.append(":9:");
    r.append(i64_to_string(l.difficulty as i64).as_str());
    r.append(":10:");
    r.append(i64_to_string(l.downloads as i64).as_str());
    r.append(":12:");
    r.append(i64_to_string(l.demon_difficulty as i64).as_str());
    r.append(":14:");
    r.append(i64_to_string(l.likes as i64).as_str());
    proof {
        reveal_strlit("1:");
        reveal_strlit(":2:");
        reveal_strlit(":6:");
        reveal_strlit(":9:");
        reveal_strlit(":10:");
        reveal_strlit(":12:");
        reveal_strlit(":14:");
        assert(r@ =~= spec_level_record_head(*l));
    }
    r
}

#[verifier::rlimit(100)]
fn level_to_gd_tail(l: &Level) -> (r: String)
    ensures
        r@ == spec_level_record_tail(*l),
{
    let mut r = ":15:".to_owned();
    r.append(i64_to_string(l.length as i64).as_str());
    r.append(":18:");
    r.append(i64_to_string(l.stars as i64).as_str());
    r.append(":19:");
    r.append(bool01(l.featured));
    r.append(":37:");
    r.append(bool01(l.coins));
    r.append(":38:");
    r.append(bool01(l.verified_coins));
    r.append(":40:");
    r.append(bool01(l.two_player));
    r.append(":42:");
    r.append(i64_to_string(l.epic_rating as i64).as_str());
    r.append(":45:");
    r.append(i64_to_string(l.objects as i64).as_str());
    r.append(":46:");
    r.append(bool01(l.original));
    proof {
        reveal_strlit(":15:");
        reveal_strlit(":18:");
        reveal_strlit(":19:");
        reveal_strlit(":37:");
        reveal_strlit(":38:");
        reveal_strlit(":40:");
        reveal_strlit(":42:");
        reveal_strlit(":45:");
        reveal_strlit(":46:");
        assert(r@ =~= spec_level_record_tail(*l));
    }
    r
}

pub fn level_to_gd(l: &Level) -> (r: String)
    ensures
        r@ == spec_level_record(*l),
{
    let mut r = level_to_gd_head(l);
    let tail = level_to_gd_tail(l);
    r.append(tail.as_str());
    r
}

/// The level block: records joined by `|`, no trailing separator.
pub open spec fn spec_level_block(s: Seq<Level>) -> Seq<char>
    decreases s.len(),
{
    if s.len() == 0 {
        Seq::empty()
    } else if s.len() == 1 {
        spec_level_record(s[0])
    } else {
        spec_level_block(s.drop_last()) + seq!['|'] + spec_level_record(s.last())
    }
}

pub fn level_string(levels: &Vec<Level>) -> (r: String)
    ensures
        r@ == spec_level_block(levels@),
{
    let mut r = String::new();
    let mut i: usize = 0;
    while i < levels.len()
        invariant
            i <= levels@.len(),
            r@ == spec_level_block(levels@.take(i as int)),
        decreases levels@.len() - i,
    {
        if i > 0 {
            r.append("|");
        }
        let rec = level_to_gd(&levels[i]);
        r.append(rec.as_str());
        proof {
            reveal_strlit("|");
            assert(levels@.take(i + 1).drop_last() =~= levels@.take(i as int));
            assert(levels@.take(i + 1).last() == levels@[i as int]);
            assert(r@ =~= spec_level_block(levels@.take(i + 1)));
        }
        i = i + 1;
    }
    proof {
        assert(levels@.take(levels@.len() as int) =~= levels@);
    }
    r
}

/// One owner entry: `ownerId:ownerName:ownerId` (the repeated id stands for a
/// deprecated secondary identifier that is no longer distinct).
pub open spec fn spec_creator_record(l: Level) -> Seq<char> {
    spec_int_chars(l.user_id as int) + seq![':'] + l.username@ + seq![':'] + spec_int_chars(
        l.user_id as int,
    )
}

pub open spec fn spec_creator_block(s: Seq<Level>) -> Seq<char>
    decreases s.len(),
{
    if s.len() == 0 {
        Seq::empty()
    } else if s.len() == 1 {
        spec_creator_record(s[0])
    } else {
        spec_creator_block(s.drop_last()) + seq!['|'] + spec_creator_record(s.last())
    }
}

pub fn creator_string(levels: &Vec<Level>) -> (r: String)
    ensures
        r@ == spec_creator_block(levels@),
{
    let mut r = String::new();
    let mut i: usize = 0;
    while i < levels.len()
        invariant
            i <= levels@.len(),
            r@ == spec_creator_block(levels@.take(i as int)),
        decreases levels@.len() - i,
    {
        if i > 0 {
            r.append("|");
        }
        let l = &levels[i];
        r.append(i64_to_string(l.user_id as i64).as_str());
        r.append(":");
        r.append(l.username.as_str());
        r.append(":");
        r.append(i64_to_string(l.user_id as i64).as_str());
        proof {
            reveal_strlit("|");
            reveal_strlit(":");
            assert(levels@.take(i + 1).drop_last() =~= levels@.take(i as int));
            assert(levels@.take(i + 1).last() == levels@[i as int]);
            assert(r@ =~= spec_creator_block(levels@.take(i + 1)));
        }
        i = i + 1;
    }
    proof {
        assert(levels@.take(levels@.len() as int) =~= levels@);
    }
    r
}

/// The pagination footer `count:offset:10` with `offset = page * 10`.
pub open spec fn spec_page_info(count: int, page: int) -> Seq<char> {
    spec_nat_chars(count) + seq![':'] + spec_int_chars(page * 10) + seq![':', '1', '0']
}

pub fn page_info(count: usize, page: i32) -> (r: String)
    requires
        -214_748_364 <= page <= 214_748_364,
    ensures
        r@ == spec_page_info(count as int, page as int),
{
    let mut r = u64_to_string(count as u64);
    r.append(":");
    let offset: i32 = page * 10;
    r.append(i64_to_string(offset as i64).as_str());
    r.append(":10");
    proof {
        reveal_strlit(":");
        reveal_strlit(":10");
        assert(r@ =~= spec_page_info(count as int, page as int));
    }
    r
}

/// The full response for a non-empty result: the five segments joined by
/// `#` — level block, owner block, the (always empty) song block, the
/// pagination footer, the integrity hash.
pub open spec fn spec_response_nonempty(s: Seq<Level>, page: int) -> Seq<char> {
    spec_level_block(s) + seq!['#'] + spec_creator_block(s) + seq!['#'] + seq!['#']
        + spec_page_info(s.len() as int, page) + seq!['#'] + sha1_hex_of(
        spec_hash_payload(s) + "xI25fpAapCQg"@,
    )
}

/// The wire response for a result set: the no-results sentinel `-2` for an
/// empty set, otherwise the five `#`-joined segments.
pub open spec fn spec_response(s: Seq<Level>, page: int) -> Seq<char> {
    if s.len() == 0 {
        "-2"@
    } else {
        spec_response_nonempty(s, page)
    }
}

pub fn respond(levels: &Vec<Level>, page: i32) -> (r: String)
    requires
        -214_748_364 <= page <= 214_748_364,
    ensures
        r@ == spec_response(levels@, page as int),
        levels@.len() == 0 ==> r@ == "-2"@,
{
    if levels.len() == 0 {
        return "-2".to_owned();
    }
    let mut r = level_string(levels);
    r.append("#");
    let creators = creator_string(levels);
    r.append(creators.as_str());
    r.append("##");
    let footer = page_info(levels.len(), page);
    r.append(footer.as_str());
    r.append("#");
    let h = generate_hash(levels);
    r.append(h.as_str());
    proof {
        reveal_strlit("#");
        reveal_strlit("##");
        assert(r@ =~= spec_response_nonempty(levels@, page as int));
    }
    r
}

} // verus!
