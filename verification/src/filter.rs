//! The predicate objects the query builder assembles, their semantics over a
//! level, the filter pass, and the ordering pass.

use vstd::prelude::*;

verus! {

use crate::model::Level;
use crate::text::{name_contains_ci, spec_name_matches};
use vstd::multiset::Multiset;

/// One AND-clause of a constructed query.
pub enum Clause {
    CoinsOn,
    FeaturedOn,
    TwoPlayerOn,
    OriginalOn,
    EpicIs(i16),
    DemonDiffIs(i16),
    DiffIn(Vec<i16>),
    LengthIn(Vec<i16>),
    OwnerIs(i32),
    OwnerIn(Vec<i32>),
    RatedIs(bool),
    IdNotIn(Vec<i32>),
    IdIn(Vec<i32>),
    IdIs(i32),
    NameContains(String),
    ObjectsOver(i32),
    CreatedSince(i64),
}

/// The ordering a strategy appends; `Unordered` leaves storage order.
pub enum OrderBy {
    Unordered,
    LikesDesc,
    DownloadsDesc,
    CreatedDesc,
    RatedThenCreatedDesc,
}

pub struct Query {
    pub clauses: Vec<Clause>,
    pub order: OrderBy,
}

pub open spec fn clause_holds(c: Clause, l: Level) -> bool {
    match c {
        Clause::CoinsOn => l.coins,
        Clause::FeaturedOn => l.featured,
        Clause::TwoPlayerOn => l.two_player,
        Clause::OriginalOn => l.original,
        Clause::EpicIs(v) => l.epic_rating == v,
        Clause::DemonDiffIs(v) => l.demon_difficulty == v,
        Clause::DiffIn(v) => v@.contains(l.difficulty),
        Clause::LengthIn(v) => v@.contains(l.length),
        Clause::OwnerIs(u) => l.user_id == u,
        Clause::OwnerIn(v) => v@.contains(l.user_id),
        Clause::RatedIs(b) => l.rated == b,
        Clause::IdNotIn(v) => !v@.contains(l.id),
        Clause::IdIn(v) => v@.contains(l.id),
        Clause::IdIs(n) => l.id == n,
        Clause::NameContains(s) => spec_name_matches(l.level_name@, s@),
        Clause::ObjectsOver(n) => l.objects > n,
        Clause::CreatedSince(t) => l.created_at >= t,
    }
}

pub open spec fn clauses_hold(cs: Seq<Clause>, l: Level) -> bool {
    forall|i: int| 0 <= i < cs.len() ==> clause_holds(#[trigger] cs[i], l)
}

pub proof fn lemma_clauses_push(cs: Seq<Clause>, x: Clause, l: Level)
    ensures
        clauses_hold(cs.push(x), l) == (clauses_hold(cs, l) && clause_holds(x, l)),
{
    if clauses_hold(cs, l) && clause_holds(x, l) {
        assert forall|i: int| 0 <= i < cs.push(x).len() implies clause_holds(
            #[trigger] cs.push(x)[i],
            l,
        ) by {
            if i < cs.len() {
                assert(cs.push(x)[i] == cs[i]);
            } else {
                assert(cs.push(x)[i] == x);
            }
        }
    }
    if clauses_hold(cs.push(x), l) {
        assert forall|i: int| 0 <= i < cs.len() implies clause_holds(#[trigger] cs[i], l) by {
            assert(cs[i] == cs.push(x)[i]);
        }
        assert(clause_holds(cs.push(x)[cs.len() as int], l));
    }
}

/// Append one clause; the conjunction the list denotes gains exactly that
/// clause's condition.
pub fn push_clause(c: &mut Vec<Clause>, x: Clause)
    ensures
        final(c)@ == old(c)@.push(x),
        forall|l: Level|
            (#[trigger] clauses_hold(final(c)@, l)) == (clauses_hold(old(c)@, l) && clause_holds(
                x,
                l,
            )),
{
    let ghost pre = c@;
    let ghost cl = x;
    c.push(x);
    proof {
        assert forall|l: Level|
            clauses_hold(c@, l) == (clauses_hold(pre, l) && clause_holds(cl, l)) by {
            lemma_clauses_push(pre, cl, l);
        }
    }
}

fn contains_i16(v: &Vec<i16>, x: i16) -> (r: bool)
    ensures
        r == v@.contains(x),
{
    let mut i: usize = 0;
    while i < v.len()
        invariant
            i <= v@.len(),
            forall|k: int| 0 <= k < i ==> v@[k] != x,
        decreases v@.len() - i,
    {
        if v[i] == x {
            return true;
        }
        i = i + 1;
    }
    false
}

fn contains_i32(v: &Vec<i32>, x: i32) -> (r: bool)
    ensures
        r == v@.contains(x),
{
    let mut i: usize = 0;
    while i < v.len()
        invariant
            i <= v@.len(),
            forall|k: int| 0 <= k < i ==> v@[k] != x,
        decreases v@.len() - i,
    {
        if v[i] == x {
            return true;
        }
        i = i + 1;
    }
    false
}

fn level_matches_clause(c: &Clause, l: &Level) -> (r: bool)
    ensures
        r == clause_holds(*c, *l),
{
    match c {
        Clause::CoinsOn => l.coins,
        Clause::FeaturedOn => l.featured,
        Clause::TwoPlayerOn => l.two_player,
        Clause::OriginalOn => l.original,
        Clause::EpicIs(v) => l.epic_rating == *v,
        Clause::DemonDiffIs(v) => l.demon_difficulty == *v,
        Clause::DiffIn(v) => contains_i16(v, l.difficulty),
        Clause::LengthIn(v) => contains_i16(v, l.length),
        Clause::OwnerIs(u) => l.user_id == *u,
        Clause::OwnerIn(v) => contains_i32(v, l.user_id),
        Clause::RatedIs(b) => l.rated == *b,
        Clause::IdNotIn(v) => !contains_i32(v, l.id),
        Clause::IdIn(v) => contains_i32(v, l.id),
        Clause::IdIs(n) => l.id == *n,
        Clause::NameContains(s) => name_contains_ci(l.level_name.as_str(), s.as_str()),
        Clause::ObjectsOver(n) => l.objects > *n,
        Clause::CreatedSince(t) => l.created_at >= *t,
    }
}

pub fn level_matches(cs: &Vec<Clause>, l: &Level) -> (r: bool)
    ensures
        r == clauses_hold(cs@, *l),
{
    let mut i: usize = 0;
    while i < cs.len()
        invariant
            i <= cs@.len(),
            forall|k: int| 0 <= k < i ==> clause_holds(#[trigger] cs@[k], *l),
        decreases cs@.len() - i,
    {
        if !level_matches_clause(&cs[i], l) {
            return false;
        }
        i = i + 1;
    }
    true
}

/// The rows of `s` that satisfy every clause, in their original order.
pub open spec fn filter_matching(s: Seq<Level>, cs: Seq<Clause>) -> Seq<Level>
    decreases s.len(),
{
    if s.len() == 0 {
        Seq::empty()
    } else if clauses_hold(cs, s[0]) {
        seq![s[0]] + filter_matching(s.drop_first(), cs)
    } else {
        filter_matching(s.drop_first(), cs)
    }
}

pub proof fn lemma_filter_sound(s: Seq<Level>, cs: Seq<Clause>)
    ensures
        forall|i: int|
            0 <= i < filter_matching(s, cs).len() ==> clauses_hold(
                cs,
                #[trigger] filter_matching(s, cs)[i],
            ),
    decreases s.len(),
{
    if s.len() > 0 {
        lemma_filter_sound(s.drop_first(), cs);
        let f = filter_matching(s, cs);
        let fr = filter_matching(s.drop_first(), cs);
        assert forall|i: int| 0 <= i < f.len() implies clauses_hold(cs, f[i]) by {
            if clauses_hold(cs, s[0]) {
                if i > 0 {
                    assert(f[i] == fr[i - 1]);
                }
            } else {
                assert(f[i] == fr[i]);
            }
        }
    }
}

pub fn filter_levels(levels: Vec<Level>, cs: &Vec<Clause>) -> (r: Vec<Level>)
    ensures
        r@ == filter_matching(levels@, cs@),
{
    let ghost orig = levels@;
    let mut src = levels;
    let mut out: Vec<Level> = Vec::new();
    while src.len() > 0
        invariant
            filter_matching(orig, cs@) == out@ + filter_matching(src@, cs@),
        decreases src@.len(),
    {
        let ghost pre = src@;
        let l = src.remove(0);
        proof {
            assert(src@ =~= pre.drop_first());
        }
        if level_matches(cs, &l) {
            out.push(l);
        }
        proof {
            assert(filter_matching(orig, cs@) =~= out@ + filter_matching(src@, cs@));
        }
    }
    proof {
        assert(filter_matching(orig, cs@) =~= out@);
    }
    out
}

// ---------------------------------------------------------------------------
// Ordering
// ---------------------------------------------------------------------------

/// The curation-time key; an absent `rated_at` sorts after every present one.
pub open spec fn rated_at_key(l: Level) -> int {
    match l.rated_at {
        Some(v) => v as int,
        None => (i64::MIN as int) - 1,
    }
}

pub open spec fn key1(o: OrderBy, l: Level) -> int {
    match o {
        OrderBy::Unordered => 0,
        OrderBy::LikesDesc => l.likes as int,
        OrderBy::DownloadsDesc => l.downloads as int,
        OrderBy::CreatedDesc => l.created_at as int,
        OrderBy::RatedThenCreatedDesc => rated_at_key(l),
    }
}

pub open spec fn key2(o: OrderBy, l: Level) -> int {
    match o {
        OrderBy::RatedThenCreatedDesc => l.created_at as int,
        _ => 0,
    }
}

/// `a` may stand before `b` under ordering `o` (descending, two-key
/// lexicographic).
pub open spec fn ge_in(o: OrderBy, a: Level, b: Level) -> bool {
    key1(o, a) > key1(o, b) || (key1(o, a) == key1(o, b) && key2(o, a) >= key2(o, b))
}

pub open spec fn sorted_desc(o: OrderBy, s: Seq<Level>) -> bool {
    forall|i: int, j: int| 0 <= i < j < s.len() ==> ge_in(o, #[trigger] s[i], #[trigger] s[j])
}

fn cmp_ge(o: &OrderBy, a: &Level, b: &Level) -> (r: bool)
    ensures
        r == ge_in(*o, *a, *b),
{
    match o {
        OrderBy::Unordered => true,
        OrderBy::LikesDesc => a.likes >= b.likes,
        OrderBy::DownloadsDesc => a.downloads >= b.downloads,
        OrderBy::CreatedDesc => a.created_at >= b.created_at,
        OrderBy::RatedThenCreatedDesc => {
            let ka: i64 = match a.rated_at {
                Some(v) => v,
                None => i64::MIN,
            };
            let kb: i64 = match b.rated_at {
                Some(v) => v,
                None => i64::MIN,
            };
            let na = a.rated_at.is_none();
            let nb = b.rated_at.is_none();
            if na && !nb {
                false
            } else if !na && nb {
                true
            } else if ka != kb {
                ka > kb
            } else {
                a.created_at >= b.created_at
            }
        },
    }
}

/// Selection sort, descending under `o`: the result is a permutation of the
/// input, sorted by the ordering's keys.
pub fn sort_desc(levels: Vec<Level>, o: &OrderBy) -> (r: Vec<Level>)
    ensures
        r@.to_multiset() == levels@.to_multiset(),
        sorted_desc(*o, r@),
{
    broadcast use vstd::seq_lib::group_to_multiset_ensures;
    broadcast use vstd::multiset::group_multiset_axioms;

    let ghost orig = levels@;
    let mut src = levels;
    let mut out: Vec<Level> = Vec::new();
    while src.len() > 0
        invariant
            out@.to_multiset().add(src@.to_multiset()) == orig.to_multiset(),
            sorted_desc(*o, out@),
            forall|i: int, j: int|
                0 <= i < out@.len() && 0 <= j < src@.len() ==> ge_in(
                    *o,
                    #[trigger] out@[i],
                    #[trigger] src@[j],
                ),
        decreases src@.len(),
    {
        let mut m: usize = 0;
        let mut j: usize = 1;
        while j < src.len()
            invariant
                m < j <= src@.len(),
                src@.len() > 0,
                forall|k: int| 0 <= k < j ==> ge_in(*o, src@[m as int], #[trigger] src@[k]),
            decreases src@.len() - j,
        {
            if !cmp_ge(o, &src[m], &src[j]) {
                proof {
                    assert(ge_in(*o, src@[j as int], src@[m as int]));
                }
                m = j;
            }
            j = j + 1;
        }
        let ghost pre = src@;
        let ghost outpre = out@;
        let x = src.remove(m);
        proof {
            pre.to_multiset_ensures();
            assert(pre[m as int] == x);
            assert(pre.contains(x));
            assert(src@.to_multiset() == pre.to_multiset().remove(x));
            assert(forall|k: int|
                0 <= k < src@.len() ==> #[trigger] src@[k] == pre[k] || src@[k] == pre[k + 1]);
            assert(forall|k: int| 0 <= k < src@.len() ==> ge_in(*o, x, #[trigger] src@[k]));
        }
        out.push(x);
        proof {
            outpre.to_multiset_ensures();
            assert(out@.to_multiset() == outpre.to_multiset().insert(x));
            assert(out@.to_multiset().add(src@.to_multiset()) =~= orig.to_multiset());
            assert(forall|i: int|
                0 <= i < out@.len() - 1 ==> ge_in(*o, #[trigger] out@[i], out@[out@.len() - 1]));
            assert(sorted_desc(*o, out@));
        }
    }
    proof {
        assert(src@.to_multiset() =~= Multiset::<Level>::empty());
        assert(out@.to_multiset() =~= orig.to_multiset());
    }
    out
}

} // verus!
