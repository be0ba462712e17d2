use vstd::prelude::*;

use crate::config::Config;
use crate::text::{contains_seq, contains_text, lines, lines_of, views};

verus! {

/// What `str::to_lowercase` makes of a text.
pub uninterp spec fn lower_of(s: Seq<char>) -> Seq<char>;

/// Relies on `str::to_lowercase`: the result depends on the characters alone.
#[verifier::external_body]
fn lowercase(s: &str) -> (r: String)
    ensures
        r@ == lower_of(s@),
{
    s.to_lowercase()
}

/// Whether a line holds the query, comparing lowered forms when `ignore_case`.
pub open spec fn matches(line: Seq<char>, query: Seq<char>, ignore_case: bool) -> bool {
    if ignore_case {
        contains_seq(lower_of(line), lower_of(query))
    } else {
        contains_seq(line, query)
    }
}

/// Whether a line is kept: it matches, or with `invert_match` it does not.
pub open spec fn keeps(query: Seq<char>, invert_match: bool, ignore_case: bool) -> spec_fn(
    Seq<char>,
) -> bool {
    |l: Seq<char>| matches(l, query, ignore_case) != invert_match
}

/// The lines of `contents` that are kept: those that match, or with `invert_match`
/// those that do not, in their original order and case.
pub open spec fn search_spec(
    query: Seq<char>,
    contents: Seq<char>,
    invert_match: bool,
    ignore_case: bool,
) -> Seq<Seq<char>> {
    lines_of(contents).filter(keeps(query, invert_match, ignore_case))
}

proof fn lemma_filter_take_step<A>(s: Seq<A>, i: int, pred: spec_fn(A) -> bool)
    requires
        0 <= i < s.len(),
    ensures
        s.take(i + 1).filter(pred) == if pred(s[i]) {
            s.take(i).filter(pred).push(s[i])
        } else {
            s.take(i).filter(pred)
        },
{
    reveal(Seq::filter);
    assert(s.take(i + 1).drop_last() =~= s.take(i));
}

proof fn lemma_views_push(v: Seq<String>, x: String)
    ensures
        views(v.push(x)) == views(v).push(x@),
{
    assert(views(v.push(x)) =~= views(v).push(x@));
}

/// Whether a line is kept, given the forms of line and query that are compared.
pub fn line_selected(line: &str, query: &str, invert_match: bool) -> (r: bool)
    ensures
        r == (contains_seq(line@, query@) != invert_match),
{
    contains_text(line, query) != invert_match
}

/// The lines of `contents` that hold `query` (or, with `invert_match`, that do not).
pub fn search(query: &str, contents: &str, invert_match: &bool) -> (r: Vec<String>)
    ensures
        views(r@) == search_spec(query@, contents@, *invert_match, false),
{
    let all = lines(contents);
    let mut out: Vec<String> = Vec::new();
    let mut i: usize = 0;
    while i < all.len()
        invariant
            0 <= i <= all.len(),
            views(all@) == lines_of(contents@),
            views(out@) == views(all@).take(i as int).filter(keeps(query@, *invert_match, false)),
        decreases all.len() - i,
    {
        let keep = line_selected(all[i].as_str(), query, *invert_match);
        proof {
            lemma_filter_take_step(views(all@), i as int, keeps(query@, *invert_match, false));
            assert(views(all@)[i as int] == all@[i as int]@);
            assert(keeps(query@, *invert_match, false)(views(all@)[i as int]) == keep);
        }
        if keep {
            let line = all[i].clone();
            proof {
                lemma_views_push(out@, line);
            }
            out.push(line);
        }
        i += 1;
    }
    assert(views(all@).take(i as int) =~= views(all@));
    out
}

/// The lines of `contents` that hold `query` when both are lowered
/// (or, with `invert_match`, that do not), in their original case.
pub fn search_case_insensitive(
    query: &str,
    contents: &str,
    invert_match: &bool,
) -> (r: Vec<String>)
    ensures
        views(r@) == search_spec(query@, contents@, *invert_match, true),
{
    let q = lowercase(query);
    let all = lines(contents);
    let mut out: Vec<String> = Vec::new();
    let mut i: usize = 0;
    while i < all.len()
        invariant
            0 <= i <= all.len(),
            q@ == lower_of(query@),
            views(all@) == lines_of(contents@),
            views(out@) == views(all@).take(i as int).filter(keeps(query@, *invert_match, true)),
        decreases all.len() - i,
    {
        let key = lowercase(all[i].as_str());
        let keep = line_selected(key.as_str(), q.as_str(), *invert_match);
        proof {
            lemma_filter_take_step(views(all@), i as int, keeps(query@, *invert_match, true));
            assert(views(all@)[i as int] == all@[i as int]@);
            assert(keeps(query@, *invert_match, true)(views(all@)[i as int]) == keep);
        }
        if keep {
            let line = all[i].clone();
            proof {
                lemma_views_push(out@, line);
            }
            out.push(line);
        }
        i += 1;
    }
    assert(views(all@).take(i as int) =~= views(all@));
    out
}

/// The lines that `config` asks for out of `contents`.
pub fn matching_lines(config: &Config, contents: &str) -> (r: Vec<String>)
    ensures
        views(r@) == search_spec(
            config.query@,
            contents@,
            config.invert_match,
            config.ignore_case,
        ),
{
    if config.ignore_case {
        search_case_insensitive(config.query.as_str(), contents, &config.invert_match)
    } else {
        search(config.query.as_str(), contents, &config.invert_match)
    }
}

proof fn lemma_filter_congruent<A>(s: Seq<A>, p: spec_fn(A) -> bool, q: spec_fn(A) -> bool)
    requires
        forall|i: int| 0 <= i < s.len() ==> p(s[i]) == q(s[i]),
    ensures
        s.filter(p) == s.filter(q),
    decreases s.len(),
{
    reveal(Seq::filter);
    if s.len() > 0 {
        lemma_filter_congruent(s.drop_last(), p, q);
    }
}

proof fn lemma_filter_all<A>(s: Seq<A>, p: spec_fn(A) -> bool)
    requires
        forall|i: int| 0 <= i < s.len() ==> p(s[i]),
    ensures
        s.filter(p) == s,
    decreases s.len(),
{
    reveal(Seq::filter);
    if s.len() > 0 {
        lemma_filter_all(s.drop_last(), p);
        assert(s.drop_last().push(s.last()) =~= s);
    }
}

proof fn lemma_filter_none<A>(s: Seq<A>, p: spec_fn(A) -> bool)
    requires
        forall|i: int| 0 <= i < s.len() ==> !p(s[i]),
    ensures
        s.filter(p) == Seq::<A>::empty(),
    decreases s.len(),
{
    reveal(Seq::filter);
    if s.len() > 0 {
        lemma_filter_none(s.drop_last(), p);
    } else {
        assert(s.filter(p) =~= Seq::<A>::empty());
    }
}

proof fn lemma_filter_map<A, B>(
    s: Seq<A>,
    f: spec_fn(A) -> B,
    p: spec_fn(A) -> bool,
    q: spec_fn(B) -> bool,
)
    requires
        forall|x: A| #[trigger] p(x) == q(f(x)),
    ensures
        s.filter(p).map_values(f) == s.map_values(f).filter(q),
    decreases s.len(),
{
    reveal(Seq::filter);
    if s.len() > 0 {
        lemma_filter_map(s.drop_last(), f, p, q);
        assert(s.map_values(f).drop_last() =~= s.drop_last().map_values(f));
        let kept = s.drop_last().filter(p);
        assert(kept.push(s.last()).map_values(f) =~= kept.map_values(f).push(f(s.last())));
    } else {
        assert(s.filter(p).map_values(f) =~= Seq::<B>::empty());
        assert(s.map_values(f).filter(q) =~= Seq::<B>::empty());
    }
}

/// Inverting the match keeps exactly the lines that the plain match leaves out,
/// in their original order, whether or not case is ignored.
pub proof fn lemma_invert_keeps_the_rest(
    query: Seq<char>,
    contents: Seq<char>,
    ignore_case: bool,
)
    ensures
        search_spec(query, contents, true, ignore_case) == lines_of(contents).filter(
            |l: Seq<char>| !search_spec(query, contents, false, ignore_case).contains(l),
        ),
{
    let all = lines_of(contents);
    let plain = keeps(query, false, ignore_case);
    let kept = search_spec(query, contents, false, ignore_case);
    broadcast use vstd::seq_lib::group_filter_ensures;

    assert forall|i: int| 0 <= i < all.len() implies kept.contains(all[i]) == plain(all[i]) by {
        if plain(all[i]) {
            all.lemma_filter_contains(plain, i);
        }
        if kept.contains(all[i]) {
            let j = choose|j: int| 0 <= j < kept.len() && kept[j] == all[i];
            all.lemma_filter_pred(plain, j);
        }
    }
    lemma_filter_congruent(
        all,
        keeps(query, true, ignore_case),
        |l: Seq<char>| !kept.contains(l),
    );
}

/// Ignoring case, the lowered forms of the kept lines are exactly what a plain match
/// of the lowered query keeps out of the lowered lines (each line lowered on its own).
pub proof fn lemma_ignore_case_is_lowered_match(
    query: Seq<char>,
    contents: Seq<char>,
    invert_match: bool,
)
    ensures
        search_spec(query, contents, invert_match, true).map_values(|l: Seq<char>| lower_of(l))
            == lines_of(contents).map_values(|l: Seq<char>| lower_of(l)).filter(
            keeps(lower_of(query), invert_match, false),
        ),
{
    lemma_filter_map(
        lines_of(contents),
        |l: Seq<char>| lower_of(l),
        keeps(query, invert_match, true),
        keeps(lower_of(query), invert_match, false),
    );
}

/// The selected lines are a function of the inputs alone: two runs on the same
/// inputs give the same lines.
pub proof fn lemma_search_repeatable(
    query: Seq<char>,
    contents: Seq<char>,
    invert_match: bool,
    ignore_case: bool,
    first: Seq<String>,
    second: Seq<String>,
)
    requires
        views(first) == search_spec(query, contents, invert_match, ignore_case),
        views(second) == search_spec(query, contents, invert_match, ignore_case),
    ensures
        views(first) == views(second),
{
}

/// An empty query is held by every line: a plain match keeps all lines, and an
/// inverted one keeps none.
pub proof fn lemma_empty_query(contents: Seq<char>)
    ensures
        search_spec(Seq::empty(), contents, false, false) == lines_of(contents),
        search_spec(Seq::empty(), contents, true, false) == Seq::<Seq<char>>::empty(),
{
    let all = lines_of(contents);
    assert forall|i: int| 0 <= i < all.len() implies contains_seq(all[i], Seq::empty()) by {
        let none = Seq::<char>::empty();
        assert(all[i].subrange(0, 0 + none.len() as int) =~= none);
    }
    lemma_filter_all(all, keeps(Seq::empty(), false, false));
    lemma_filter_none(all, keeps(Seq::empty(), true, false));
}

} // verus!
