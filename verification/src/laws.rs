//! The library's cross-cutting guarantees, each proved over the spec
//! functions the public contracts use.

use vstd::prelude::*;

verus! {

use vstd::utf8::encode_utf8;
use crate::dispatch::{filter_pred, lemma_rows_satisfy, spec_run_ok};
use crate::filter::{OrderBy, sorted_desc};
use crate::model::{Catalog, Level, unique_level_ids};
use crate::num::{spec_i16_list, spec_i32_or_zero, spec_is_numeric};
use crate::query::{
    generic_matches, spec_completed_ids, spec_diff_ok, spec_first_diff, spec_order,
};
use crate::request::getGJLevels21;

/// A difficulty-set parameter whose tokens all fail to parse (the sentinels
/// `-` and the empty entry among them) constrains nothing: the difficulty
/// axis accepts every level, exactly as if the filter were omitted.
pub proof fn law_unparsable_difficulty_is_no_constraint(r: getGJLevels21, l: Level)
    requires
        spec_first_diff(r) != "-2"@,
        spec_i16_list(encode_utf8(spec_first_diff(r))).len() == 0,
    ensures
        spec_diff_ok(r, l),
{
}

proof fn lemma_filter_pred_empty(s: Seq<Level>, p: spec_fn(Level) -> bool)
    requires
        forall|i: int| 0 <= i < s.len() ==> !p(#[trigger] s[i]),
    ensures
        filter_pred(s, p).len() == 0,
    decreases s.len(),
{
    if s.len() > 0 {
        assert(forall|i: int|
            0 <= i < s.drop_first().len() ==> s.drop_first()[i] == #[trigger] s[i + 1]);
        lemma_filter_pred_empty(s.drop_first(), p);
    }
}

proof fn lemma_filter_pred_unique_id(s: Seq<Level>, p: spec_fn(Level) -> bool, n: int)
    requires
        unique_level_ids(s),
        forall|l: Level| #[trigger] p(l) ==> l.id as int == n,
    ensures
        filter_pred(s, p).len() <= 1,
    decreases s.len(),
{
    if s.len() > 0 {
        assert(forall|i: int|
            0 <= i < s.drop_first().len() ==> s.drop_first()[i] == #[trigger] s[i + 1]);
        lemma_filter_pred_unique_id(s.drop_first(), p, n);
        if p(s[0]) {
            assert forall|i: int| 0 <= i < s.drop_first().len() implies !p(
                #[trigger] s.drop_first()[i],
            ) by {
                if p(s.drop_first()[i]) {
                    assert(s[i + 1].id == s[0].id);
                }
            }
            lemma_filter_pred_empty(s.drop_first(), p);
        }
    }
}

/// A default search (type 0) on a purely numeric search string matches on
/// the id alone: over a catalog of unique ids at most one row comes back,
/// every returned row carries exactly the parsed id, and no like-count
/// ordering is applied.
pub proof fn law_numeric_search_is_id_lookup(
    r: getGJLevels21,
    cat: Catalog,
    now: int,
    rows: Seq<Level>,
)
    requires
        cat.wf(),
        r.search_type == 0,
        spec_is_numeric(encode_utf8(r.search@)),
        spec_run_ok(r, cat, now, rows),
    ensures
        forall|i: int|
            0 <= i < rows.len() ==> (#[trigger] rows[i]).id as int == spec_i32_or_zero(
                encode_utf8(r.search@),
            ),
        rows.len() <= 1,
        spec_order(r) == OrderBy::Unordered,
{
    broadcast use vstd::seq_lib::group_to_multiset_ensures;

    let p = |l: Level| generic_matches(r, now, l);
    let n = spec_i32_or_zero(encode_utf8(r.search@));
    lemma_rows_satisfy(rows, cat.levels@, p);
    lemma_filter_pred_unique_id(cat.levels@, p, n);
    assert(rows.len() == rows.to_multiset().len());
    assert(filter_pred(cat.levels@, p).len() == filter_pred(cat.levels@, p).to_multiset().len());
}

/// With `onlyCompleted` set, no returned level's id lies in the supplied
/// completion set.
pub proof fn law_only_completed_excludes(
    r: getGJLevels21,
    cat: Catalog,
    now: int,
    rows: Seq<Level>,
)
    requires
        !crate::dispatch::is_fixed_code(r.search_type),
        r.onlyCompleted,
        spec_run_ok(r, cat, now, rows),
    ensures
        forall|i: int|
            0 <= i < rows.len() ==> !spec_completed_ids(r).contains(
                (#[trigger] rows[i]).id as int,
            ),
{
    lemma_rows_satisfy(rows, cat.levels@, |l: Level| generic_matches(r, now, l));
}

/// With `uncompleted` set (and `onlyCompleted` clear), every returned
/// level's id lies in the supplied completion set.
pub proof fn law_uncompleted_restricts(r: getGJLevels21, cat: Catalog, now: int, rows: Seq<Level>)
    requires
        !crate::dispatch::is_fixed_code(r.search_type),
        !r.onlyCompleted,
        r.uncompleted,
        spec_run_ok(r, cat, now, rows),
    ensures
        forall|i: int|
            0 <= i < rows.len() ==> spec_completed_ids(r).contains((#[trigger] rows[i]).id as int),
{
    lemma_rows_satisfy(rows, cat.levels@, |l: Level| generic_matches(r, now, l));
}

/// A most-liked search (type 2) returns its rows ordered by like count,
/// descending.
pub proof fn law_most_liked_is_sorted_by_likes(
    r: getGJLevels21,
    cat: Catalog,
    now: int,
    rows: Seq<Level>,
)
    requires
        r.search_type == 2,
        spec_run_ok(r, cat, now, rows),
    ensures
        sorted_desc(OrderBy::LikesDesc, rows),
        forall|i: int, j: int|
            0 <= i < j < rows.len() ==> (#[trigger] rows[i]).likes >= (#[trigger] rows[j]).likes,
{
    assert(spec_order(r) == OrderBy::LikesDesc);
}

/// With both `star` and `noStar` set, only unrated levels come back: the
/// no-star toggle wins over star's rated-only meaning.
pub proof fn law_no_star_wins(r: getGJLevels21, cat: Catalog, now: int, rows: Seq<Level>)
    requires
        !crate::dispatch::is_fixed_code(r.search_type),
        r.star,
        r.noStar,
        spec_run_ok(r, cat, now, rows),
    ensures
        forall|i: int| 0 <= i < rows.len() ==> !(#[trigger] rows[i]).rated,
{
    lemma_rows_satisfy(rows, cat.levels@, |l: Level| generic_matches(r, now, l));
}

} // verus!
