//! The search dispatcher: the strategy each search-type code selects, its
//! in-memory execution against the catalog, and the assembled wire response.

use vstd::prelude::*;

verus! {

use vstd::utf8::encode_utf8;
use crate::encode::{respond, spec_response};
use crate::filter::{
    Clause, OrderBy, Query, clauses_hold, filter_levels, filter_matching, lemma_filter_sound,
    push_clause, sort_desc, sorted_desc,
};
use crate::model::{Catalog, Level};
use crate::num::{parse_i32_list, parse_i32_or_zero, spec_i32_list, spec_i32_or_zero};
use crate::query::{build_query, generic_matches, lemma_contains_i32_int, spec_order};
use crate::request::getGJLevels21;

/// The retrieval strategy a search-type code selects, one variant per code,
/// with the generic filtered search as the default.
pub enum Strategy {
    Oversized,
    RatedList,
    Followed(Vec<i32>),
    Friends(i32),
    Daily,
    Weekly,
    Event,
    SavedList(i32),
    Suggested,
    Generic(Query),
}

pub open spec fn is_fixed_code(t: i16) -> bool {
    t == 7 || t == 11 || t == 12 || t == 13 || t == 21 || t == 22 || t == 23 || t == 25 || t == 27
}

/// Map the search-type code to its strategy; every code not in the fixed
/// enumeration falls through to the generic filtered search. The followed
/// strategy trusts the client-supplied id list as-is: nothing checks it
/// against a stored follow relation.
pub fn select_strategy(r: &getGJLevels21, now: i64) -> (s: Strategy)
    requires
        now >= 0,
    ensures
        r.search_type == 7 ==> s == Strategy::Oversized,
        r.search_type == 11 ==> s == Strategy::RatedList,
        r.search_type == 12 ==> (s matches Strategy::Followed(ids) && ids@.map_values(
            |x: i32| x as int,
        ) == spec_i32_list(encode_utf8(r.followed@))),
        r.search_type == 13 ==> s == Strategy::Friends(r.accountID),
        r.search_type == 21 ==> s == Strategy::Daily,
        r.search_type == 22 ==> s == Strategy::Weekly,
        r.search_type == 23 ==> s == Strategy::Event,
        r.search_type == 25 ==> (s matches Strategy::SavedList(id) && id as int == spec_i32_or_zero(
            encode_utf8(r.search@),
        )),
        r.search_type == 27 ==> s == Strategy::Suggested,
        !is_fixed_code(r.search_type) ==> (s matches Strategy::Generic(q) && (forall|l: Level|
            clauses_hold(q.clauses@, l) == generic_matches(*r, now as int, l)) && q.order
            == spec_order(*r)),
{
    if r.search_type == 7 {
        Strategy::Oversized
    } else if r.search_type == 11 {
        Strategy::RatedList
    } else if r.search_type == 12 {
        Strategy::Followed(parse_i32_list(r.followed.as_str()))
    } else if r.search_type == 13 {
        Strategy::Friends(r.accountID)
    } else if r.search_type == 21 {
        Strategy::Daily
    } else if r.search_type == 22 {
        Strategy::Weekly
    } else if r.search_type == 23 {
        Strategy::Event
    } else if r.search_type == 25 {
        Strategy::SavedList(parse_i32_or_zero(r.search.as_str()))
    } else if r.search_type == 27 {
        Strategy::Suggested
    } else {
        Strategy::Generic(build_query(r, now))
    }
}

/// Run one query: keep the matching rows, then order them; with no ordering
/// the filtered rows stand exactly in storage order.
pub fn run_query(q: Query, levels: Vec<Level>) -> (r: Vec<Level>)
    ensures
        r@.to_multiset() == filter_matching(levels@, q.clauses@).to_multiset(),
        sorted_desc(q.order, r@),
        q.order is Unordered ==> r@ == filter_matching(levels@, q.clauses@),
        forall|i: int| 0 <= i < r@.len() ==> clauses_hold(q.clauses@, #[trigger] r@[i]),
{
    broadcast use vstd::seq_lib::group_to_multiset_ensures;

    let Query { clauses, order } = q;
    let ghost cs = clauses@;
    let filtered = filter_levels(levels, &clauses);
    let r = match order {
        OrderBy::Unordered => filtered,
        _ => sort_desc(filtered, &order),
    };
    proof {
        lemma_filter_sound(levels@, cs);
        let f = filter_matching(levels@, cs);
        assert forall|i: int| 0 <= i < r@.len() implies clauses_hold(cs, r@[i]) by {
            assert(r@.contains(r@[i]));
            assert(r@.to_multiset().count(r@[i]) > 0);
            assert(f.contains(r@[i]));
            let k = choose|k: int| 0 <= k < f.len() && f[k] == r@[i];
            assert(clauses_hold(cs, f[k]));
        }
    }
    r
}

/// The filter semantics as a plain predicate, for the contracts that speak
/// of a strategy's meaning rather than of clause lists.
pub open spec fn filter_pred(s: Seq<Level>, p: spec_fn(Level) -> bool) -> Seq<Level>
    decreases s.len(),
{
    if s.len() == 0 {
        Seq::empty()
    } else if p(s[0]) {
        seq![s[0]] + filter_pred(s.drop_first(), p)
    } else {
        filter_pred(s.drop_first(), p)
    }
}

pub proof fn lemma_filter_pred_clauses(s: Seq<Level>, cs: Seq<Clause>, p: spec_fn(Level) -> bool)
    requires
        forall|l: Level| clauses_hold(cs, l) == p(l),
    ensures
        filter_matching(s, cs) == filter_pred(s, p),
    decreases s.len(),
{
    if s.len() > 0 {
        lemma_filter_pred_clauses(s.drop_first(), cs, p);
    }
}

pub proof fn lemma_filter_pred_sound(s: Seq<Level>, p: spec_fn(Level) -> bool)
    ensures
        forall|i: int| 0 <= i < filter_pred(s, p).len() ==> p(#[trigger] filter_pred(s, p)[i]),
    decreases s.len(),
{
    if s.len() > 0 {
        lemma_filter_pred_sound(s.drop_first(), p);
        let f = filter_pred(s, p);
        let fr = filter_pred(s.drop_first(), p);
        assert forall|i: int| 0 <= i < f.len() implies p(f[i]) by {
            if p(s[0]) {
                if i > 0 {
                    assert(f[i] == fr[i - 1]);
                }
            } else {
                assert(f[i] == fr[i]);
            }
        }
    }
}

/// Every row of a result that is, as a multiset, a filtered subset of a base
/// sequence satisfies the filter's predicate.
pub proof fn lemma_rows_satisfy(rows: Seq<Level>, base: Seq<Level>, p: spec_fn(Level) -> bool)
    requires
        rows.to_multiset() == filter_pred(base, p).to_multiset(),
    ensures
        forall|i: int| 0 <= i < rows.len() ==> p(#[trigger] rows[i]),
{
    broadcast use vstd::seq_lib::group_to_multiset_ensures;

    lemma_filter_pred_sound(base, p);
    let f = filter_pred(base, p);
    assert forall|i: int| 0 <= i < rows.len() implies p(rows[i]) by {
        assert(rows.contains(rows[i]));
        assert(rows.to_multiset().count(rows[i]) > 0);
        assert(f.contains(rows[i]));
        let k = choose|k: int| 0 <= k < f.len() && f[k] == rows[i];
        assert(p(f[k]));
    }
}

// ---------------------------------------------------------------------------
// The friend relation and the association tables
// ---------------------------------------------------------------------------

/// The requester's peers in the symmetric friendship relation: for each row
/// holding the requester on either side, the other side.
pub open spec fn spec_friend_ids(pairs: Seq<(i32, i32)>, me: i32) -> Seq<i32>
    decreases pairs.len(),
{
    if pairs.len() == 0 {
        Seq::empty()
    } else {
        let rest = spec_friend_ids(pairs.drop_first(), me);
        if pairs[0].0 == me {
            seq![pairs[0].1] + rest
        } else if pairs[0].1 == me {
            seq![pairs[0].0] + rest
        } else {
            rest
        }
    }
}

pub fn friend_ids(pairs: &Vec<(i32, i32)>, me: i32) -> (r: Vec<i32>)
    ensures
        r@ == spec_friend_ids(pairs@, me),
{
    let mut r: Vec<i32> = Vec::new();
    let mut i: usize = 0;
    proof {
        assert(pairs@.skip(0) =~= pairs@);
        assert(r@ + spec_friend_ids(pairs@, me) =~= spec_friend_ids(pairs@, me));
    }
    while i < pairs.len()
        invariant
            i <= pairs@.len(),
            spec_friend_ids(pairs@, me) == r@ + spec_friend_ids(pairs@.skip(i as int), me),
        decreases pairs@.len() - i,
    {
        proof {
            assert(pairs@.skip(i as int)[0] == pairs@[i as int]);
            assert(pairs@.skip(i as int).drop_first() =~= pairs@.skip(i as int + 1));
        }
        let p = pairs[i];
        if p.0 == me {
            r.push(p.1);
        } else if p.1 == me {
            r.push(p.0);
        }
        proof {
            assert(spec_friend_ids(pairs@, me) =~= r@ + spec_friend_ids(
                pairs@.skip(i as int + 1),
                me,
            ));
        }
        i = i + 1;
    }
    proof {
        assert(pairs@.skip(pairs@.len() as int) =~= Seq::<(i32, i32)>::empty());
        assert(spec_friend_ids(pairs@, me) =~= r@);
    }
    r
}

/// The index of the first level with the given id, `-1` when there is none.
pub open spec fn first_with_id(s: Seq<Level>, id: i32) -> int
    decreases s.len(),
{
    if s.len() == 0 {
        -1
    } else if s[0].id == id {
        0
    } else {
        let r = first_with_id(s.drop_first(), id);
        if r >= 0 {
            r + 1
        } else {
            -1
        }
    }
}

proof fn lemma_first_found(s: Seq<Level>, id: i32, j: int)
    requires
        0 <= j < s.len(),
        s[j].id == id,
        forall|k: int| 0 <= k < j ==> (#[trigger] s[k]).id != id,
    ensures
        first_with_id(s, id) == j,
    decreases s.len(),
{
    if j > 0 {
        lemma_first_found(s.drop_first(), id, j - 1);
    }
}

proof fn lemma_first_none(s: Seq<Level>, id: i32)
    requires
        forall|k: int| 0 <= k < s.len() ==> (#[trigger] s[k]).id != id,
    ensures
        first_with_id(s, id) == -1,
    decreases s.len(),
{
    if s.len() > 0 {
        lemma_first_none(s.drop_first(), id);
    }
}

fn find_first_id(v: &Vec<Level>, id: i32) -> (r: Option<usize>)
    ensures
        match r {
            Some(i) => first_with_id(v@, id) == i as int && i < v@.len() && v@[i as int].id == id,
            None => first_with_id(v@, id) == -1,
        },
{
    let mut i: usize = 0;
    while i < v.len()
        invariant
            i <= v@.len(),
            forall|k: int| 0 <= k < i ==> (#[trigger] v@[k]).id != id,
        decreases v@.len() - i,
    {
        if v[i].id == id {
            proof {
                lemma_first_found(v@, id, i as int);
            }
            return Some(i);
        }
        i = i + 1;
    }
    proof {
        lemma_first_none(v@, id);
    }
    None
}

/// The join against an association table, most recent association first: for
/// each id, most recently assigned first, the first catalog level carrying
/// it.
pub open spec fn spec_take_ids(ids: Seq<i32>, s: Seq<Level>) -> Seq<Level>
    decreases ids.len(),
{
    if ids.len() == 0 {
        Seq::empty()
    } else {
        let i = first_with_id(s, ids[0]);
        if i >= 0 {
            seq![s[i]] + spec_take_ids(ids.drop_first(), s.remove(i))
        } else {
            spec_take_ids(ids.drop_first(), s)
        }
    }
}

pub fn take_by_assoc(assoc: &Vec<i32>, levels: Vec<Level>) -> (r: Vec<Level>)
    ensures
        r@ == spec_take_ids(assoc@.reverse(), levels@),
{
    let ghost rev = assoc@.reverse();
    let ghost orig = levels@;
    let mut src = levels;
    let mut out: Vec<Level> = Vec::new();
    let mut t: usize = 0;
    let n = assoc.len();
    proof {
        assert(rev.skip(0) =~= rev);
        assert(out@ + spec_take_ids(rev, orig) =~= spec_take_ids(rev, orig));
    }
    while t < n
        invariant
            t <= n == assoc@.len(),
            rev == assoc@.reverse(),
            spec_take_ids(rev, orig) == out@ + spec_take_ids(rev.skip(t as int), src@),
        decreases n - t,
    {
        proof {
            assert(rev.skip(t as int)[0] == rev[t as int]);
            assert(rev[t as int] == assoc@[n - 1 - t]);
            assert(rev.skip(t as int).drop_first() =~= rev.skip(t as int + 1));
        }
        let aid = assoc[n - 1 - t];
        match find_first_id(&src, aid) {
            Some(i) => {
                let ghost pre = src@;
                let x = src.remove(i);
                proof {
                    assert(src@ =~= pre.remove(i as int));
                }
                out.push(x);
            },
            None => {},
        }
        proof {
            assert(spec_take_ids(rev, orig) =~= out@ + spec_take_ids(rev.skip(t as int + 1), src@));
        }
        t = t + 1;
    }
    proof {
        assert(rev.skip(n as int) =~= Seq::<i32>::empty());
        assert(spec_take_ids(rev, orig) =~= out@);
    }
    out
}

/// The stored list with the given id, as its comma-separated level-id text.
pub open spec fn spec_find_list(lists: Seq<(i32, String)>, id: i32) -> Option<Seq<char>>
    decreases lists.len(),
{
    if lists.len() == 0 {
        None
    } else if lists[0].0 == id {
        Some(lists[0].1@)
    } else {
        spec_find_list(lists.drop_first(), id)
    }
}

fn find_list(lists: &Vec<(i32, String)>, id: i32) -> (r: Option<String>)
    ensures
        match r {
            Some(s) => spec_find_list(lists@, id) == Some(s@),
            None => spec_find_list(lists@, id) is None,
        },
{
    let mut i: usize = 0;
    proof {
        assert(lists@.skip(0) =~= lists@);
    }
    while i < lists.len()
        invariant
            i <= lists@.len(),
            spec_find_list(lists@, id) == spec_find_list(lists@.skip(i as int), id),
        decreases lists@.len() - i,
    {
        proof {
            assert(lists@.skip(i as int)[0] == lists@[i as int]);
            assert(lists@.skip(i as int).drop_first() =~= lists@.skip(i as int + 1));
        }
        if lists[i].0 == id {
            return Some(lists[i].1.clone());
        }
        i = i + 1;
    }
    proof {
        assert(lists@.skip(lists@.len() as int) =~= Seq::<(i32, String)>::empty());
    }
    None
}

// ---------------------------------------------------------------------------
// Running a strategy
// ---------------------------------------------------------------------------

/// What the rows of a finished search satisfy, per search-type code: the
/// filtered membership (as a multiset, since ordering permutes) and the
/// strategy's ordering; the unordered strategies are pinned exactly.
pub open spec fn spec_run_ok(r: getGJLevels21, cat: Catalog, now: int, rows: Seq<Level>) -> bool {
    if r.search_type == 7 {
        rows.to_multiset() == filter_pred(cat.levels@, |l: Level| l.objects > 9999).to_multiset()
            && sorted_desc(OrderBy::CreatedDesc, rows)
    } else if r.search_type == 11 {
        rows.to_multiset() == filter_pred(cat.levels@, |l: Level| l.rated).to_multiset()
            && sorted_desc(OrderBy::RatedThenCreatedDesc, rows)
    } else if r.search_type == 12 {
        rows.to_multiset() == filter_pred(
            cat.levels@,
            |l: Level| spec_i32_list(encode_utf8(r.followed@)).contains(l.user_id as int),
        ).to_multiset() && sorted_desc(OrderBy::CreatedDesc, rows)
    } else if r.search_type == 13 {
        rows.to_multiset() == filter_pred(
            cat.levels@,
            |l: Level| spec_friend_ids(cat.friendships@, r.accountID).contains(l.user_id),
        ).to_multiset() && sorted_desc(OrderBy::CreatedDesc, rows)
    } else if r.search_type == 21 {
        rows == spec_take_ids(cat.daily@.reverse(), cat.levels@)
    } else if r.search_type == 22 {
        rows == spec_take_ids(cat.weekly@.reverse(), cat.levels@)
    } else if r.search_type == 23 {
        rows == spec_take_ids(cat.event@.reverse(), cat.levels@)
    } else if r.search_type == 25 {
        match spec_find_list(cat.lists@, spec_i32_or_zero(encode_utf8(r.search@)) as i32) {
            Some(txt) => rows == filter_pred(
                cat.levels@,
                |l: Level| spec_i32_list(encode_utf8(txt)).contains(l.id as int),
            ),
            None => false,
        }
    } else if r.search_type == 27 {
        rows == filter_pred(cat.levels@, |l: Level| cat.suggested@.contains(l.id))
    } else {
        rows.to_multiset() == filter_pred(
            cat.levels@,
            |l: Level| generic_matches(r, now, l),
        ).to_multiset() && sorted_desc(spec_order(r), rows) && (spec_order(r) is Unordered
            ==> rows == filter_pred(cat.levels@, |l: Level| generic_matches(r, now, l)))
    }
}

/// Whether the request fails hard: only the saved-list strategy can, when
/// the named list does not exist in storage.
pub open spec fn spec_lookup_fails(r: getGJLevels21, cat: Catalog) -> bool {
    r.search_type == 25 && spec_find_list(
        cat.lists@,
        spec_i32_or_zero(encode_utf8(r.search@)) as i32,
    ) is None
}

/// Execute the selected strategy against the catalog.
pub fn run_search(req: &getGJLevels21, cat: Catalog, now: i64) -> (r: Option<Vec<Level>>)
    requires
        now >= 0,
    ensures
        (r is None) == spec_lookup_fails(*req, cat),
        r matches Some(rows) ==> spec_run_ok(*req, cat, now as int, rows@),
{
    let Catalog { levels, daily, weekly, event, suggested, friendships, lists } = cat;
    match select_strategy(req, now) {
        Strategy::Oversized => {
            let mut cs: Vec<Clause> = Vec::new();
            push_clause(&mut cs, Clause::ObjectsOver(9999));
            let rows = run_query(Query { clauses: cs, order: OrderBy::CreatedDesc }, levels);
            proof {
                lemma_filter_pred_clauses(
                    cat.levels@,
                    cs@,
                    |l: Level| l.objects > 9999,
                );
            }
            Some(rows)
        },
        Strategy::RatedList => {
            let mut cs: Vec<Clause> = Vec::new();
            push_clause(&mut cs, Clause::RatedIs(true));
            let rows = run_query(
                Query { clauses: cs, order: OrderBy::RatedThenCreatedDesc },
                levels,
            );
            proof {
                lemma_filter_pred_clauses(cat.levels@, cs@, |l: Level| l.rated);
            }
            Some(rows)
        },
        Strategy::Followed(ids) => {
            let ghost idseq = ids@;
            let mut cs: Vec<Clause> = Vec::new();
            push_clause(&mut cs, Clause::OwnerIn(ids));
            let rows = run_query(Query { clauses: cs, order: OrderBy::CreatedDesc }, levels);
            proof {
                assert forall|l: Level|
                    clauses_hold(cs@, l) == spec_i32_list(encode_utf8(req.followed@)).contains(
                        l.user_id as int,
                    ) by {
                    lemma_contains_i32_int(idseq, l.user_id);
                }
                lemma_filter_pred_clauses(
                    cat.levels@,
                    cs@,
                    |l: Level| spec_i32_list(encode_utf8(req.followed@)).contains(l.user_id as int),
                );
            }
            Some(rows)
        },
        Strategy::Friends(me) => {
            let fids = friend_ids(&friendships, me);
            let mut cs: Vec<Clause> = Vec::new();
            push_clause(&mut cs, Clause::OwnerIn(fids));
            let rows = run_query(Query { clauses: cs, order: OrderBy::CreatedDesc }, levels);
            proof {
                lemma_filter_pred_clauses(
                    cat.levels@,
                    cs@,
                    |l: Level| spec_friend_ids(cat.friendships@, req.accountID).contains(l.user_id),
                );
            }
            Some(rows)
        },
        Strategy::Daily => Some(take_by_assoc(&daily, levels)),
        Strategy::Weekly => Some(take_by_assoc(&weekly, levels)),
        Strategy::Event => Some(take_by_assoc(&event, levels)),
        Strategy::SavedList(list_id) => {
            match find_list(&lists, list_id) {
                None => None,
                Some(txt) => {
                    let ids = parse_i32_list(txt.as_str());
                    let ghost idseq = ids@;
                    let mut cs: Vec<Clause> = Vec::new();
                    push_clause(&mut cs, Clause::IdIn(ids));
                    let rows = run_query(
                        Query { clauses: cs, order: OrderBy::Unordered },
                        levels,
                    );
                    proof {
                        assert forall|l: Level|
                            clauses_hold(cs@, l) == spec_i32_list(encode_utf8(txt@)).contains(
                                l.id as int,
                            ) by {
                            lemma_contains_i32_int(idseq, l.id);
                        }
                        lemma_filter_pred_clauses(
                            cat.levels@,
                            cs@,
                            |l: Level| spec_i32_list(encode_utf8(txt@)).contains(l.id as int),
                        );
                    }
                    Some(rows)
                },
            }
        },
        Strategy::Suggested => {
            let ghost sugseq = suggested@;
            let mut cs: Vec<Clause> = Vec::new();
            push_clause(&mut cs, Clause::IdIn(suggested));
            let rows = run_query(Query { clauses: cs, order: OrderBy::Unordered }, levels);
            proof {
                lemma_filter_pred_clauses(
                    cat.levels@,
                    cs@,
                    |l: Level| cat.suggested@.contains(l.id),
                );
            }
            Some(rows)
        },
        Strategy::Generic(q) => {
            let ghost cs = q.clauses@;
            let rows = run_query(q, levels);
            proof {
                lemma_filter_pred_clauses(
                    cat.levels@,
                    cs,
                    |l: Level| generic_matches(*req, now as int, l),
                );
            }
            Some(rows)
        },
    }
}

/// The complete read path: select the strategy, run it, and encode the rows;
/// an empty result short-circuits to the `-2` sentinel inside the encoder,
/// and only a failed saved-list lookup is a hard failure (`None`).
pub fn search_levels(req: &getGJLevels21, cat: Catalog, now: i64) -> (r: Option<String>)
    requires
        now >= 0,
        -214_748_364 <= req.page <= 214_748_364,
    ensures
        (r is None) == spec_lookup_fails(*req, cat),
        r matches Some(out) ==> exists|rows: Seq<Level>|
            #[trigger] spec_run_ok(*req, cat, now as int, rows) && out@ == spec_response(
                rows,
                req.page as int,
            ),
{
    match run_search(req, cat, now) {
        None => None,
        Some(rows) => {
            let out = respond(&rows, req.page);
            proof {
                assert(spec_run_ok(*req, cat, now as int, rows@));
            }
            Some(out)
        },
    }
}

} // verus!
