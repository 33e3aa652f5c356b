use vstd::prelude::*;
use crate::text::{chars_of, contains, contains_chars, lines_in, lines_of, views};

verus! {

/// What `str::to_lowercase` makes of a string: the locale-independent
/// lowercase form of each of its characters, in order.
pub uninterp spec fn lower_of(s: Seq<char>) -> Seq<char>;

/// Relies on `str::to_lowercase`: the result depends on the characters alone,
/// and the empty string stays empty.
#[verifier::external_body]
fn lowercase(s: &str) -> (r: String)
    ensures
        r@ == lower_of(s@),
        s@.len() == 0 ==> r@.len() == 0,
{
    s.to_lowercase()
}

/// Relies on `String::push`: appends one character at the end.
#[verifier::external_body]
fn push_char(s: &mut String, c: char)
    ensures
        final(s)@ == old(s)@.push(c),
{
    s.push(c);
}

/// The character sequences held by a vector of strings.
pub open spec fn strings(v: Seq<String>) -> Seq<Seq<char>> {
    v.map_values(|s: String| s@)
}

/// Holds of the lines that contain `query` literally.
pub open spec fn has_query(query: Seq<char>) -> spec_fn(Seq<char>) -> bool {
    |line: Seq<char>| contains(line, query)
}

/// Holds of the lines whose lowercase form contains `folded_query`.
pub open spec fn has_folded_query(folded_query: Seq<char>) -> spec_fn(Seq<char>) -> bool {
    |line: Seq<char>| contains(lower_of(line), folded_query)
}

/// The lines of `content` that contain `query`, in their order.
pub open spec fn matching_lines(query: Seq<char>, content: Seq<char>) -> Seq<Seq<char>> {
    lines_of(content).filter(has_query(query))
}

/// The lines of `content` that contain `query` once both are lowercased, in
/// their order, as they stand in `content`.
pub open spec fn folded_matching_lines(query: Seq<char>, content: Seq<char>) -> Seq<Seq<char>> {
    lines_of(content).filter(has_folded_query(lower_of(query)))
}

/// Builds a string out of characters.
fn string_from(v: &Vec<char>) -> (r: String)
    ensures
        r@ == v@,
{
    let mut s = String::new();
    let mut i: usize = 0;
    while i < v.len()
        invariant
            i <= v@.len(),
            s@ == v@.subrange(0, i as int),
        decreases v.len() - i,
    {
        push_char(&mut s, v[i]);
        i = i + 1;
        assert(s@ =~= v@.subrange(0, i as int));
    }
    assert(v@.subrange(0, v@.len() as int) =~= v@);
    s
}

proof fn lemma_filter_step(lines: Seq<Seq<char>>, pred: spec_fn(Seq<char>) -> bool, i: int)
    requires
        0 <= i < lines.len(),
    ensures
        lines.take(i + 1).filter(pred) == if pred(lines[i]) {
            lines.take(i).filter(pred).push(lines[i])
        } else {
            lines.take(i).filter(pred)
        },
{
    reveal(Seq::filter);
    assert(lines.take(i + 1).drop_last() =~= lines.take(i));
}

/// The lines of `content` that contain `query`, in their order.
pub fn search(query: &str, content: &str) -> (r: Vec<String>)
    ensures
        strings(r@) == matching_lines(query@, content@),
{
    let q = chars_of(query);
    let lines = lines_in(&chars_of(content));
    let ghost all = lines_of(content@);
    let mut out: Vec<String> = Vec::new();
    let mut i: usize = 0;
    assert(all.take(0) =~= Seq::empty());
    proof {
        reveal(Seq::filter);
    }
    while i < lines.len()
        invariant
            i <= lines@.len(),
            views(lines@) == all,
            strings(out@) == all.take(i as int).filter(has_query(q@)),
        decreases lines.len() - i,
    {
        proof {
            lemma_filter_step(all, has_query(q@), i as int);
        }
        assert(all[i as int] == lines@[i as int]@);
        if contains_chars(&lines[i], &q) {
            let line = string_from(&lines[i]);
            let ghost before = out@;
            out.push(line);
            assert(strings(out@) =~= strings(before).push(line@));
        }
        i = i + 1;
    }
    assert(all.take(all.len() as int) =~= all);
    out
}

/// The lines of `content` that contain `query` when both are lowercased; the
/// lines come back as they stand in `content`, in their order.
pub fn search_case_insensitive(query: &str, content: &str) -> (r: Vec<String>)
    ensures
        strings(r@) == folded_matching_lines(query@, content@),
{
    let folded_query = lowercase(query);
    let q = chars_of(folded_query.as_str());
    let lines = lines_in(&chars_of(content));
    let ghost all = lines_of(content@);
    let mut out: Vec<String> = Vec::new();
    let mut i: usize = 0;
    assert(all.take(0) =~= Seq::empty());
    proof {
        reveal(Seq::filter);
    }
    while i < lines.len()
        invariant
            i <= lines@.len(),
            views(lines@) == all,
            q@ == lower_of(query@),
            strings(out@) == all.take(i as int).filter(has_folded_query(q@)),
        decreases lines.len() - i,
    {
        proof {
            lemma_filter_step(all, has_folded_query(q@), i as int);
        }
        let line = string_from(&lines[i]);
        assert(all[i as int] == line@);
        let folded_line = lowercase(line.as_str());
        if contains_chars(&chars_of(folded_line.as_str()), &q) {
            let ghost before = out@;
            out.push(line);
            assert(strings(out@) =~= strings(before).push(all[i as int]));
        }
        i = i + 1;
    }
    assert(all.take(all.len() as int) =~= all);
    out
}

} // verus!
