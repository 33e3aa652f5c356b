use vstd::prelude::*;
use crate::matcher::{
    folded_matching_lines, has_folded_query, has_query, lower_of, matching_lines,
};
use crate::text::{contains, lines_of};

verus! {

/// `sub` is made of elements of `all` taken at the strictly increasing
/// positions `idx`: it keeps their relative order.
pub open spec fn picks(sub: Seq<Seq<char>>, all: Seq<Seq<char>>, idx: Seq<int>) -> bool {
    &&& idx.len() == sub.len()
    &&& forall|k: int|
        0 <= k < idx.len() ==> 0 <= #[trigger] idx[k] < all.len() && sub[k] == all[idx[k]]
    &&& forall|k: int, m: int| 0 <= k < m < idx.len() ==> #[trigger] idx[k] < #[trigger] idx[m]
}

proof fn lemma_filter_picks(all: Seq<Seq<char>>, pred: spec_fn(Seq<char>) -> bool)
    ensures
        exists|idx: Seq<int>| picks(all.filter(pred), all, idx),
    decreases all.len(),
{
    reveal(Seq::filter);
    if all.len() == 0 {
        assert(picks(all.filter(pred), all, Seq::empty()));
    } else {
        let rest = all.drop_last();
        lemma_filter_picks(rest, pred);
        let idx0 = choose|idx: Seq<int>| picks(rest.filter(pred), rest, idx);
        if pred(all.last()) {
            let idx = idx0.push(all.len() - 1);
            assert(picks(all.filter(pred), all, idx));
        } else {
            assert(picks(all.filter(pred), all, idx0));
        }
    }
}

proof fn lemma_filter_agree(
    all: Seq<Seq<char>>,
    p: spec_fn(Seq<char>) -> bool,
    q: spec_fn(Seq<char>) -> bool,
)
    requires
        forall|k: int| 0 <= k < all.len() ==> p(#[trigger] all[k]) == q(all[k]),
    ensures
        all.filter(p) == all.filter(q),
    decreases all.len(),
{
    reveal(Seq::filter);
    if all.len() > 0 {
        lemma_filter_agree(all.drop_last(), p, q);
        assert(p(all[all.len() - 1]) == q(all[all.len() - 1]));
    }
}

proof fn lemma_filter_all(all: Seq<Seq<char>>, p: spec_fn(Seq<char>) -> bool)
    requires
        forall|k: int| 0 <= k < all.len() ==> p(#[trigger] all[k]),
    ensures
        all.filter(p) == all,
    decreases all.len(),
{
    reveal(Seq::filter);
    if all.len() > 0 {
        lemma_filter_all(all.drop_last(), p);
        assert(p(all[all.len() - 1]));
        assert(all.drop_last().push(all.last()) =~= all);
    }
}

/// Every line that `search` returns contains the query; every line of the
/// content that contains the query is returned; and the returned lines stand
/// in the order they have in the content.
pub proof fn lemma_search_selects_exactly(query: Seq<char>, content: Seq<char>)
    ensures
        forall|k: int|
            0 <= k < matching_lines(query, content).len() ==> contains(
                #[trigger] matching_lines(query, content)[k],
                query,
            ),
        forall|j: int|
            0 <= j < lines_of(content).len() && contains(#[trigger] lines_of(content)[j], query)
                ==> matching_lines(query, content).contains(lines_of(content)[j]),
        exists|idx: Seq<int>| picks(matching_lines(query, content), lines_of(content), idx),
{
    let all = lines_of(content);
    broadcast use vstd::seq_lib::group_filter_ensures;

    assert forall|k: int| 0 <= k < matching_lines(query, content).len() implies contains(
        #[trigger] matching_lines(query, content)[k],
        query,
    ) by {
        assert(has_query(query)(all.filter(has_query(query))[k]));
    }
    assert forall|j: int|
        0 <= j < all.len() && contains(#[trigger] all[j], query) implies matching_lines(
        query,
        content,
    ).contains(all[j]) by {
        assert(has_query(query)(all[j]));
    }
    lemma_filter_picks(all, has_query(query));
    let idx = choose|idx: Seq<int>| picks(all.filter(has_query(query)), all, idx);
    assert(picks(matching_lines(query, content), all, idx));
}

/// With the empty query, `search` returns every line of the content, unchanged
/// and in order.
pub proof fn lemma_empty_query_keeps_all(content: Seq<char>)
    ensures
        matching_lines(Seq::empty(), content) == lines_of(content),
{
    let all = lines_of(content);
    assert forall|k: int| 0 <= k < all.len() implies has_query(Seq::empty())(
        #[trigger] all[k],
    ) by {
        let none = Seq::<char>::empty();
        assert(all[k].subrange(0, 0int + none.len()) =~= none);
        assert(contains(all[k], none));
    }
    lemma_filter_all(all, has_query(Seq::empty()));
}

/// Where the query and every line of the content are already in lowercase,
/// the case-insensitive search returns the same lines as the literal one, so
/// never fewer.
pub proof fn lemma_lowercase_input_same_result(query: Seq<char>, content: Seq<char>)
    requires
        lower_of(query) == query,
        forall|k: int|
            0 <= k < lines_of(content).len() ==> lower_of(#[trigger] lines_of(content)[k])
                == lines_of(content)[k],
    ensures
        folded_matching_lines(query, content) == matching_lines(query, content),
        folded_matching_lines(query, content).len() >= matching_lines(query, content).len(),
{
    let all = lines_of(content);
    assert forall|k: int| 0 <= k < all.len() implies has_folded_query(lower_of(query))(
        #[trigger] all[k],
    ) == has_query(query)(all[k]) by {
        assert(lower_of(all[k]) == all[k]);
    }
    lemma_filter_agree(all, has_folded_query(lower_of(query)), has_query(query));
}

/// Two queries with the same lowercase form select the same lines in the
/// case-insensitive search.
pub proof fn lemma_case_fold_equivalent(q1: Seq<char>, q2: Seq<char>, content: Seq<char>)
    requires
        lower_of(q1) == lower_of(q2),
    ensures
        folded_matching_lines(q1, content) == folded_matching_lines(q2, content),
{
}

/// Both searches are functions of their inputs alone: the same query and
/// content always select the same lines.
pub proof fn lemma_searches_repeatable(
    query: Seq<char>,
    content: Seq<char>,
    query_again: Seq<char>,
    content_again: Seq<char>,
)
    requires
        query_again == query,
        content_again == content,
    ensures
        matching_lines(query_again, content_again) == matching_lines(query, content),
        folded_matching_lines(query_again, content_again) == folded_matching_lines(
            query,
            content,
        ),
{
}

} // verus!
