//! The generic filtered search: the request's semantics as a predicate over
//! a level, and the builder that assembles the matching clause list.

use vstd::prelude::*;

verus! {

use vstd::utf8::encode_utf8;
use crate::filter::{Clause, OrderBy, Query, clause_holds, clauses_hold, push_clause};
use crate::model::Level;
use crate::num::{
    parse_i16_list, parse_i32_list_in_parens, parse_i32_or_zero, is_numeric, spec_i16_list,
    spec_i32_list, spec_i32_or_zero, spec_is_numeric, spec_strip_parens,
};
use crate::request::getGJLevels21;
use crate::text::{spec_name_matches, str_eq};

/// The first entry of the difficulty-set parameter; an absent entry counts as
/// the empty string (no constraint).
pub open spec fn spec_first_diff(r: getGJLevels21) -> Seq<char> {
    if r.diff@.len() > 0 {
        r.diff@[0]@
    } else {
        Seq::<char>::empty()
    }
}

pub open spec fn spec_flags_ok(r: getGJLevels21, l: Level) -> bool {
    &&& (r.coins ==> l.coins)
    &&& (r.featured ==> l.featured)
    &&& (r.twoPlayer ==> l.two_player)
    &&& (r.original ==> l.original)
}

/// Epic-rating toggles are honoured by priority: legendary (2), then epic
/// (1), then mythic (3).
pub open spec fn spec_epic_ok(r: getGJLevels21, l: Level) -> bool {
    if r.legendary {
        l.epic_rating == 2
    } else if r.epic {
        l.epic_rating == 1
    } else if r.mythic {
        l.epic_rating == 3
    } else {
        true
    }
}

/// The difficulty axis: sentinel `-` or empty means no constraint; `-2`
/// constrains the demon sub-difficulty to the separately carried value; any
/// other first entry is parsed as a difficulty set, and an all-unparsable set
/// constrains nothing.
pub open spec fn spec_diff_ok(r: getGJLevels21, l: Level) -> bool {
    let d = spec_first_diff(r);
    if d == "-"@ || d == ""@ {
        true
    } else if d == "-2"@ {
        l.demon_difficulty == r.demonFilter
    } else {
        let set = spec_i16_list(encode_utf8(d));
        if set.len() == 0 {
            true
        } else {
            set.contains(l.difficulty as int)
        }
    }
}

/// The length axis, same two-state pattern as the difficulty axis.
pub open spec fn spec_len_ok(r: getGJLevels21, l: Level) -> bool {
    let d = r.len@;
    if d == "-"@ || d == ""@ {
        true
    } else {
        let set = spec_i16_list(encode_utf8(d));
        if set.len() == 0 {
            true
        } else {
            set.contains(l.length as int)
        }
    }
}

/// By-specific-user (search type 5 only): `local` means the requester's own
/// levels, otherwise the owner id is parsed from the search string with the
/// match-nothing fallback 0.
pub open spec fn spec_owner_ok(r: getGJLevels21, l: Level) -> bool {
    if r.search_type == 5 {
        if r.local {
            l.user_id == r.accountID
        } else {
            l.user_id as int == spec_i32_or_zero(encode_utf8(r.search@))
        }
    } else {
        true
    }
}

/// Star toggles: both set constrains to unrated (no-star wins); star alone
/// constrains to rated.
pub open spec fn spec_star_ok(r: getGJLevels21, l: Level) -> bool {
    if r.noStar && r.star {
        !l.rated
    } else if r.star {
        l.rated
    } else {
        true
    }
}

pub open spec fn spec_completed_ids(r: getGJLevels21) -> Seq<int> {
    spec_i32_list(spec_strip_parens(encode_utf8(r.completedLevels@)))
}

/// Completion exclusion: `onlyCompleted` keeps the levels *not* in the
/// client's completed set, `uncompleted` keeps exactly those in it; tested in
/// that order.
pub open spec fn spec_completed_ok(r: getGJLevels21, l: Level) -> bool {
    let ids = spec_completed_ids(r);
    if r.onlyCompleted {
        !ids.contains(l.id as int)
    } else if r.uncompleted {
        ids.contains(l.id as int)
    } else {
        true
    }
}

/// The terminal clause by search type: 0 is an exact-id match for a numeric
/// search string and a case-insensitive name match otherwise; 3 keeps the
/// last fourteen days.
pub open spec fn spec_terminal_ok(r: getGJLevels21, now: int, l: Level) -> bool {
    if r.search_type == 0 {
        if spec_is_numeric(encode_utf8(r.search@)) {
            l.id as int == spec_i32_or_zero(encode_utf8(r.search@))
        } else {
            spec_name_matches(l.level_name@, r.search@)
        }
    } else if r.search_type == 3 {
        l.created_at >= now - 1_209_600
    } else {
        true
    }
}

/// The complete generic-search predicate: the conjunction of every filter
/// axis, in the builder's order.
pub open spec fn generic_matches(r: getGJLevels21, now: int, l: Level) -> bool {
    &&& spec_flags_ok(r, l)
    &&& spec_epic_ok(r, l)
    &&& spec_diff_ok(r, l)
    &&& spec_len_ok(r, l)
    &&& spec_owner_ok(r, l)
    &&& spec_star_ok(r, l)
    &&& spec_completed_ok(r, l)
    &&& spec_terminal_ok(r, now, l)
}

/// The ordering the generic path appends, by search type.
pub open spec fn spec_order(r: getGJLevels21) -> OrderBy {
    if r.search_type == 0 {
        if spec_is_numeric(encode_utf8(r.search@)) {
            OrderBy::Unordered
        } else {
            OrderBy::LikesDesc
        }
    } else if r.search_type == 1 {
        OrderBy::DownloadsDesc
    } else if r.search_type == 2 {
        OrderBy::LikesDesc
    } else if r.search_type == 3 {
        OrderBy::DownloadsDesc
    } else if r.search_type == 4 {
        OrderBy::CreatedDesc
    } else {
        OrderBy::Unordered
    }
}

pub proof fn lemma_clauses_concat(a: Seq<Clause>, b: Seq<Clause>, l: Level)
    ensures
        clauses_hold(a + b, l) == (clauses_hold(a, l) && clauses_hold(b, l)),
{
    if clauses_hold(a, l) && clauses_hold(b, l) {
        assert forall|i: int| 0 <= i < (a + b).len() implies clause_holds(#[trigger] (a + b)[i], l) by {
            if i < a.len() {
                assert((a + b)[i] == a[i]);
            } else {
                assert((a + b)[i] == b[i - a.len()]);
            }
        }
    }
    if clauses_hold(a + b, l) {
        assert forall|i: int| 0 <= i < a.len() implies clause_holds(#[trigger] a[i], l) by {
            assert(a[i] == (a + b)[i]);
        }
        assert forall|i: int| 0 <= i < b.len() implies clause_holds(#[trigger] b[i], l) by {
            assert(b[i] == (a + b)[i + a.len()]);
        }
    }
}

pub proof fn lemma_contains_i16_int(s: Seq<i16>, x: i16)
    ensures
        s.contains(x) == s.map_values(|y: i16| y as int).contains(x as int),
{
    let m = s.map_values(|y: i16| y as int);
    if s.contains(x) {
        let k = choose|k: int| 0 <= k < s.len() && s[k] == x;
        assert(m[k] == x as int);
    }
    if m.contains(x as int) {
        let k = choose|k: int| 0 <= k < m.len() && m[k] == x as int;
        assert(s[k] == x);
    }
}

pub proof fn lemma_contains_i32_int(s: Seq<i32>, x: i32)
    ensures
        s.contains(x) == s.map_values(|y: i32| y as int).contains(x as int),
{
    let m = s.map_values(|y: i32| y as int);
    if s.contains(x) {
        let k = choose|k: int| 0 <= k < s.len() && s[k] == x;
        assert(m[k] == x as int);
    }
    if m.contains(x as int) {
        let k = choose|k: int| 0 <= k < m.len() && m[k] == x as int;
        assert(s[k] == x);
    }
}

fn flag_clauses(r: &getGJLevels21) -> (c: Vec<Clause>)
    ensures
        forall|l: Level| clauses_hold(c@, l) == spec_flags_ok(*r, l),
{
    let mut c: Vec<Clause> = Vec::new();
    if r.coins {
        push_clause(&mut c, Clause::CoinsOn);
    }
    if r.featured {
        push_clause(&mut c, Clause::FeaturedOn);
    }
    if r.twoPlayer {
        push_clause(&mut c, Clause::TwoPlayerOn);
    }
    if r.original {
        push_clause(&mut c, Clause::OriginalOn);
    }
    c
}

fn epic_clauses(r: &getGJLevels21) -> (c: Vec<Clause>)
    ensures
        forall|l: Level| clauses_hold(c@, l) == spec_epic_ok(*r, l),
{
    let mut c: Vec<Clause> = Vec::new();
    if r.legendary {
        push_clause(&mut c, Clause::EpicIs(2));
    } else if r.epic {
        push_clause(&mut c, Clause::EpicIs(1));
    } else if r.mythic {
        push_clause(&mut c, Clause::EpicIs(3));
    }
    c
}

fn diff_clauses(r: &getGJLevels21) -> (c: Vec<Clause>)
    ensures
        forall|l: Level| clauses_hold(c@, l) == spec_diff_ok(*r, l),
{
    let first: String = if r.diff.len() > 0 {
        r.diff[0].clone()
    } else {
        String::new()
    };
    proof {
        assert(first@ == spec_first_diff(*r));
    }
    let mut c: Vec<Clause> = Vec::new();
    if str_eq(first.as_str(), "-") || str_eq(first.as_str(), "") {
        return c;
    }
    if str_eq(first.as_str(), "-2") {
        push_clause(&mut c, Clause::DemonDiffIs(r.demonFilter));
        return c;
    }
    let set = parse_i16_list(first.as_str());
    if set.len() > 0 {
        proof {
            assert forall|l: Level|
                clause_holds(Clause::DiffIn(set), l) == spec_i16_list(
                    encode_utf8(spec_first_diff(*r)),
                ).contains(l.difficulty as int) by {
                lemma_contains_i16_int(set@, l.difficulty);
            }
        }
        push_clause(&mut c, Clause::DiffIn(set));
    }
    c
}

fn len_clauses(r: &getGJLevels21) -> (c: Vec<Clause>)
    ensures
        forall|l: Level| clauses_hold(c@, l) == spec_len_ok(*r, l),
{
    let mut c: Vec<Clause> = Vec::new();
    if str_eq(r.len.as_str(), "-") || str_eq(r.len.as_str(), "") {
        return c;
    }
    let set = parse_i16_list(r.len.as_str());
    if set.len() > 0 {
        proof {
            assert forall|l: Level|
                clause_holds(Clause::LengthIn(set), l) == spec_i16_list(
                    encode_utf8(r.len@),
                ).contains(l.length as int) by {
                lemma_contains_i16_int(set@, l.length);
            }
        }
        push_clause(&mut c, Clause::LengthIn(set));
    }
    c
}

fn owner_clauses(r: &getGJLevels21) -> (c: Vec<Clause>)
    ensures
        forall|l: Level| clauses_hold(c@, l) == spec_owner_ok(*r, l),
{
    let mut c: Vec<Clause> = Vec::new();
    if r.search_type == 5 {
        if r.local {
            push_clause(&mut c, Clause::OwnerIs(r.accountID));
        } else {
            let id = parse_i32_or_zero(r.search.as_str());
            push_clause(&mut c, Clause::OwnerIs(id));
        }
    }
    c
}

fn star_clauses(r: &getGJLevels21) -> (c: Vec<Clause>)
    ensures
        forall|l: Level| clauses_hold(c@, l) == spec_star_ok(*r, l),
{
    let mut c: Vec<Clause> = Vec::new();
    if r.noStar && r.star {
        push_clause(&mut c, Clause::RatedIs(false));
    } else if r.star {
        push_clause(&mut c, Clause::RatedIs(true));
    }
    c
}

fn completed_clauses(r: &getGJLevels21) -> (c: Vec<Clause>)
    ensures
        forall|l: Level| clauses_hold(c@, l) == spec_completed_ok(*r, l),
{
    let mut c: Vec<Clause> = Vec::new();
    if r.onlyCompleted || r.uncompleted {
        let ids = parse_i32_list_in_parens(r.completedLevels.as_str());
        proof {
            assert forall|l: Level|
                #[trigger] clause_holds(Clause::IdIn(ids), l) == spec_completed_ids(*r).contains(
                    l.id as int,
                ) by {
                lemma_contains_i32_int(ids@, l.id);
            }
            assert forall|l: Level|
                #[trigger] clause_holds(Clause::IdNotIn(ids), l) == !spec_completed_ids(
                    *r,
                ).contains(l.id as int) by {
                lemma_contains_i32_int(ids@, l.id);
            }
        }
        if r.onlyCompleted {
            push_clause(&mut c, Clause::IdNotIn(ids));
        } else {
            push_clause(&mut c, Clause::IdIn(ids));
        }
    }
    c
}

fn terminal_clauses(r: &getGJLevels21, now: i64) -> (c: Vec<Clause>)
    requires
        now >= 0,
    ensures
        forall|l: Level| clauses_hold(c@, l) == spec_terminal_ok(*r, now as int, l),
{
    let mut c: Vec<Clause> = Vec::new();
    if r.search_type == 0 {
        if is_numeric(r.search.as_str()) {
            let id = parse_i32_or_zero(r.search.as_str());
            push_clause(&mut c, Clause::IdIs(id));
        } else {
            push_clause(&mut c, Clause::NameContains(r.search.clone()));
        }
    } else if r.search_type == 3 {
        push_clause(&mut c, Clause::CreatedSince(now - 1_209_600));
    }
    c
}

/// Assemble the generic filtered query: every optional axis as an AND-clause
/// in builder order, plus the search type's ordering.
pub fn build_query(r: &getGJLevels21, now: i64) -> (q: Query)
    requires
        now >= 0,
    ensures
        forall|l: Level| clauses_hold(q.clauses@, l) == generic_matches(*r, now as int, l),
        q.order == spec_order(*r),
{
    let mut cs = flag_clauses(r);
    let ghost g1 = cs@;
    let mut c2 = epic_clauses(r);
    let ghost s2 = c2@;
    cs.append(&mut c2);
    let ghost g2 = cs@;
    let mut c3 = diff_clauses(r);
    let ghost s3 = c3@;
    cs.append(&mut c3);
    let ghost g3 = cs@;
    let mut c4 = len_clauses(r);
    let ghost s4 = c4@;
    cs.append(&mut c4);
    let ghost g4 = cs@;
    let mut c5 = owner_clauses(r);
    let ghost s5 = c5@;
    cs.append(&mut c5);
    let ghost g5 = cs@;
    let mut c6 = star_clauses(r);
    let ghost s6 = c6@;
    cs.append(&mut c6);
    let ghost g6 = cs@;
    let mut c7 = completed_clauses(r);
    let ghost s7 = c7@;
    cs.append(&mut c7);
    let ghost g7 = cs@;
    let mut c8 = terminal_clauses(r, now);
    let ghost s8 = c8@;
    cs.append(&mut c8);
    proof {
        assert forall|l: Level|
            clauses_hold(cs@, l) == generic_matches(*r, now as int, l) by {
            lemma_clauses_concat(g1, s2, l);
            lemma_clauses_concat(g2, s3, l);
            lemma_clauses_concat(g3, s4, l);
            lemma_clauses_concat(g4, s5, l);
            lemma_clauses_concat(g5, s6, l);
            lemma_clauses_concat(g6, s7, l);
            lemma_clauses_concat(g7, s8, l);
        }
    }
    let order: OrderBy = if r.search_type == 0 {
        if is_numeric(r.search.as_str()) {
            OrderBy::Unordered
        } else {
            OrderBy::LikesDesc
        }
    } else if r.search_type == 1 {
        OrderBy::DownloadsDesc
    } else if r.search_type == 2 {
        OrderBy::LikesDesc
    } else if r.search_type == 3 {
        OrderBy::DownloadsDesc
    } else if r.search_type == 4 {
        OrderBy::CreatedDesc
    } else {
        OrderBy::Unordered
    };
    Query { clauses: cs, order }
}

} // verus!
