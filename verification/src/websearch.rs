//! Web context for the interpretation of a search: the titles and snippets of the first
//! results. No results is never an error.

use vstd::prelude::*;
use crate::scrape::html::{page_rows, select_rows, Row, RowView};
use crate::text::{chars_of, contains, occurs, push_text, text_of, trim, trimmed};

verus! {

/// How many results are read.
pub const MAX_SNIPPETS: usize = 5;

/// Whether `c` is a space or a dash.
pub open spec fn is_filler(c: char) -> bool {
    c == ' ' || c == '—'
}

/// `s` without spaces and dashes at its front.
pub open spec fn without_leading_filler(s: Seq<char>) -> Seq<char>
    decreases s.len(),
{
    if s.len() > 0 && is_filler(s[0]) {
        without_leading_filler(s.drop_first())
    } else {
        s
    }
}

/// `s` without spaces and dashes at its end.
pub open spec fn without_trailing_filler(s: Seq<char>) -> Seq<char>
    decreases s.len(),
{
    if s.len() > 0 && is_filler(s.last()) {
        without_trailing_filler(s.drop_last())
    } else {
        s
    }
}

/// `s` without spaces and dashes at either end.
pub fn trim_filler(s: &str) -> (r: String)
    ensures
        r@ == without_trailing_filler(without_leading_filler(s@)),
{
    let v = chars_of(s);
    let mut from: usize = 0;
    assert(v@.skip(0) =~= v@);
    while from < v.len() && (v[from] == ' ' || v[from] == '—')
        invariant
            from <= v@.len(),
            without_leading_filler(v@) == without_leading_filler(v@.skip(from as int)),
        decreases v@.len() - from,
    {
        assert(v@.skip(from as int).drop_first() =~= v@.skip(from + 1));
        from = from + 1;
    }
    let ghost rest = v@.skip(from as int);
    let mut to: usize = v.len();
    assert(v@.subrange(from as int, to as int) =~= rest);
    while to > from && (v[to - 1] == ' ' || v[to - 1] == '—')
        invariant
            from <= to <= v@.len(),
            without_trailing_filler(rest) == without_trailing_filler(
                v@.subrange(from as int, to as int),
            ),
        decreases to,
    {
        assert(v@.subrange(from as int, to as int).drop_last() =~= v@.subrange(
            from as int,
            to - 1,
        ));
        assert(v@.subrange(from as int, to as int).last() == v@[to - 1]);
        to = to - 1;
    }
    if to > from {
        assert(v@.subrange(from as int, to as int).last() == v@[to - 1]);
    }
    text_of(&v, from, to)
}

/// The line of one result, title and snippet; none for an advertisement, a result without
/// a title, or one that says nothing.
pub open spec fn result_line(row: RowView) -> Option<Seq<char>> {
    let ad = row.own.class matches Some(class) && occurs(class, "result--ad"@);
    match row.part(0) {
        Some(title) => {
            let snippet = match row.part(1) {
                Some(s) => s.text,
                None => Seq::empty(),
            };
            let line = without_trailing_filler(
                without_leading_filler(trimmed(title.text) + " — "@ + trimmed(snippet)),
            );
            if ad || line.len() == 0 {
                None
            } else {
                Some(line)
            }
        },
        None => None,
    }
}

/// The lines of the first results that have one.
pub open spec fn result_lines(rows: Seq<RowView>) -> Seq<Seq<char>>
    decreases rows.len(),
{
    if rows.len() == 0 {
        Seq::empty()
    } else {
        let before = result_lines(rows.drop_last());
        match result_line(rows.last()) {
            Some(line) => if before.len() < MAX_SNIPPETS {
                before.push(line)
            } else {
                before
            },
            None => before,
        }
    }
}

/// The line of one result.
fn read_result(row: &Row) -> (r: Option<String>)
    ensures
        r.deep_view() == result_line(row.deep_view()),
{
    if let Some(class) = &row.own.class {
        if contains(class.as_str(), "result--ad") {
            return None;
        }
    }
    let mut line = match row.part(0) {
        Some(e) => trim(e.text.as_str()),
        None => {
            return None;
        },
    };
    line.append(" — ");
    let snippet = match row.part(1) {
        Some(e) => trim(e.text.as_str()),
        None => trim(""),
    };
    proof {
        reveal_strlit("");
        assert(""@ =~= Seq::<char>::empty());
    }
    line.append(snippet.as_str());
    let line = trim_filler(line.as_str());
    if line.as_str().is_empty() {
        None
    } else {
        Some(line)
    }
}

/// The lines of the first results that have one.
pub fn lines_from(rows: &Vec<Row>) -> (r: Vec<String>)
    ensures
        r.deep_view() == result_lines(rows.deep_view()),
{
    let ghost all = rows.deep_view();
    let mut out: Vec<String> = Vec::new();
    let mut i: usize = 0;
    assert(out.deep_view() =~= Seq::empty());
    while i < rows.len()
        invariant
            i <= rows@.len(),
            all == rows.deep_view(),
            out.deep_view() == result_lines(all.take(i as int)),
        decreases rows@.len() - i,
    {
        assert(all.take(i + 1).drop_last() =~= all.take(i as int));
        assert(all.take(i + 1).last() == rows@[i as int].deep_view());
        assert(out.deep_view().len() == out@.len());
        if let Some(line) = read_result(&rows[i]) {
            if out.len() < MAX_SNIPPETS {
                push_text(&mut out, line.as_str());
            }
        }
        i = i + 1;
    }
    assert(all.take(all.len() as int) =~= all);
    out
}

/// The snippets of a result page.
pub open spec fn snippets_in(html: Seq<char>) -> Seq<Seq<char>> {
    result_lines(page_rows(html, ".result"@, seq![".result__title"@, ".result__snippet"@]))
}

/// The lines of the first results on a results page.
pub fn parse(html: &str) -> (r: Vec<String>)
    ensures
        r.deep_view() == snippets_in(html@),
{
    let mut parts: Vec<String> = Vec::new();
    parts.push(".result__title".to_owned());
    parts.push(".result__snippet".to_owned());
    assert(parts.deep_view() =~= seq![".result__title"@, ".result__snippet"@]);
    lines_from(&select_rows(html, ".result", &parts))
}

/// No more results are read than allowed.
pub proof fn snippets_are_few(rows: Seq<RowView>)
    ensures
        result_lines(rows).len() <= MAX_SNIPPETS,
    decreases rows.len(),
{
    if rows.len() > 0 {
        snippets_are_few(rows.drop_last());
    }
}

/// What a search that can fail brings.
pub open spec fn found_in(page: Result<Seq<char>, Seq<char>>) -> Seq<Seq<char>> {
    match page {
        Ok(html) => snippets_in(html),
        Err(_) => Seq::empty(),
    }
}

/// What a search brings: its snippets, or none where it failed.
pub fn found(page: &Result<String, String>) -> (r: Vec<String>)
    ensures
        r.deep_view() == found_in(crate::llm::text_result(*page)),
{
    match page {
        Ok(html) => parse(html.as_str()),
        Err(_) => {
            let nothing: Vec<String> = Vec::new();
            assert(nothing.deep_view() =~= Seq::empty());
            nothing
        },
    }
}

/// What is cut from the ends of a line is spaces and dashes, all of them and nothing else.
pub proof fn only_end_filler_goes(front: Seq<char>, s: Seq<char>, back: Seq<char>)
    requires
        forall|i: int| 0 <= i < front.len() ==> (#[trigger] front[i] == ' ' || front[i] == '—'),
        forall|i: int| 0 <= i < back.len() ==> (#[trigger] back[i] == ' ' || back[i] == '—'),
        s.len() > 0,
        s[0] != ' ' && s[0] != '—',
        s.last() != ' ' && s.last() != '—',
    ensures
        without_trailing_filler(without_leading_filler(front + s + back)) == s,
    decreases front.len() + back.len(),
{
    let all = front + s + back;
    if front.len() > 0 {
        let rest = front.drop_first();
        assert(all[0] == front[0]);
        assert(all.drop_first() =~= rest + s + back);
        assert forall|i: int| 0 <= i < rest.len() implies (#[trigger] rest[i] == ' ' || rest[i]
            == '—') by {
            assert(rest[i] == front[i + 1]);
        }
        only_end_filler_goes(rest, s, back);
    } else {
        assert(all =~= s + back);
        assert(without_leading_filler(all) == all);
        if back.len() > 0 {
            let rest = back.drop_last();
            assert(all.last() == back.last());
            assert(back[back.len() - 1] == back.last());
            assert(all.drop_last() =~= front + s + rest);
            assert forall|i: int| 0 <= i < rest.len() implies (#[trigger] rest[i] == ' ' || rest[i]
                == '—') by {
                assert(rest[i] == back[i]);
            }
            only_end_filler_goes(front, s, rest);
            let less = front + s + rest;
            assert(less[0] == s[0]);
            assert(without_leading_filler(less) == less);
        } else {
            assert(all =~= s);
        }
    }
}

/// The line of a result is its title, a dash and its snippet, without what fills its ends;
/// an advertisement, a result without a title and one that says nothing have none.
pub proof fn lines_hold_title_and_snippet(row: RowView)
    ensures
        row.own.class matches Some(class) ==> occurs(class, "result--ad"@) ==> result_line(row)
            is None,
        row.part(0) is None ==> result_line(row) is None,
        row.part(0) is Some && !(row.own.class is Some && occurs(
            row.own.class->0,
            "result--ad"@,
        )) ==> {
            let line = without_trailing_filler(
                without_leading_filler(
                    trimmed((row.part(0)->0).text) + " — "@ + trimmed(
                        match row.part(1) {
                            Some(s) => s.text,
                            None => Seq::empty(),
                        },
                    ),
                ),
            );
            &&& line.len() > 0 ==> result_line(row) == Some(line)
            &&& line.len() == 0 ==> result_line(row) is None
        },
{
}

/// The snippets of a page are the lines of its first five results that have one, in order.
pub proof fn the_first_five_lines(rows: Seq<RowView>)
    ensures
        ({
            let lines = rows.map_values(|x: RowView| result_line(x)).filter(
                |l: Option<Seq<char>>| l is Some,
            );
            result_lines(rows).map_values(|l: Seq<char>| Some(l)) == if lines.len() <= 5 {
                lines
            } else {
                lines.take(5)
            }
        }),
    decreases rows.len(),
{
    reveal(Seq::filter);
    let f = |x: RowView| result_line(x);
    let p = |l: Option<Seq<char>>| l is Some;
    let g = |l: Seq<char>| Some(l);
    let lines = rows.map_values(f).filter(p);
    if rows.len() > 0 {
        let rest = rows.drop_last();
        the_first_five_lines(rest);
        let before = rest.map_values(f).filter(p);
        assert(rows.map_values(f).drop_last() =~= rest.map_values(f));
        assert(rows.map_values(f).last() == f(rows.last()));
        let kept = result_lines(rest);
        assert(kept.map_values(g).len() == kept.len());
        if let Some(l) = f(rows.last()) {
            assert(lines =~= before.push(Some(l)));
            assert(kept.push(l).map_values(g) =~= kept.map_values(g).push(Some(l)));
            if before.len() >= 5 {
                assert(lines.take(5) =~= before.take(5));
                assert(before.take(5).len() == 5);
                assert(before.len() == 5 ==> before.take(5) =~= before);
            }
        }
    }
    assert(result_lines(rows).map_values(g) =~= if lines.len() <= 5 {
        lines
    } else {
        lines.take(5)
    });
}

/// A page is read by its results, each with its title and its snippet; a search that fails
/// brings nothing.
pub proof fn results_are_read(html: Seq<char>, message: Seq<char>)
    ensures
        found_in(Ok(html)) == result_lines(
            page_rows(html, ".result"@, seq![".result__title"@, ".result__snippet"@]),
        ),
        found_in(Err(message)).len() == 0,
{
}

} // verus!
