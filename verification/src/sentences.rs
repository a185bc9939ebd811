//! How sentences are stored: the tags column, new records, bulk-insert chunks,
//! row-count checks and the full-text search query.
use vstd::prelude::*;
use crate::models::{Sentence, texts, opt_text};
use crate::text::{
    all_white_space, chars_of, is_blank, is_trimmed, is_white_space, lemma_trim_of_trimmed, push_str,
    string_from, trim, trim_range, push_range, starts_with, trimmed, owned,
};

verus! {

/// `parts` joined with `sep` between neighbours.
pub open spec fn join_parts(parts: Seq<Seq<char>>, sep: Seq<char>) -> Seq<char>
    decreases parts.len(),
{
    if parts.len() == 0 {
        Seq::empty()
    } else if parts.len() == 1 {
        parts[0]
    } else {
        join_parts(parts.drop_last(), sep) + sep + parts.last()
    }
}

/// The pieces of `s` between occurrences of `sep` (always at least one piece), as
/// `str::split` gives them.
pub open spec fn split_on(s: Seq<char>, sep: char) -> Seq<Seq<char>>
    decreases s.len(),
{
    if s.len() == 0 {
        seq![Seq::empty()]
    } else {
        let prev = split_on(s.drop_last(), sep);
        if s.last() == sep {
            prev.push(Seq::empty())
        } else {
            prev.update(prev.len() - 1, prev.last().push(s.last()))
        }
    }
}

/// The tags column that stores `tags`.
pub open spec fn tags_column(tags: Seq<Seq<char>>) -> Seq<char> {
    join_parts(tags, seq![','])
}

/// The tags read back from a tags column: none for a blank column, else the
/// comma-separated pieces, each trimmed.
pub open spec fn tags_of_column(column: Seq<char>) -> Seq<Seq<char>> {
    if all_white_space(column) {
        Seq::empty()
    } else {
        split_on(column, ',').map_values(|p: Seq<char>| trim(p))
    }
}

pub proof fn lemma_split_nonempty(s: Seq<char>, sep: char)
    ensures
        split_on(s, sep).len() >= 1,
    decreases s.len(),
{
    if s.len() > 0 {
        lemma_split_nonempty(s.drop_last(), sep);
    }
}

/// Appending text without a separator only extends the last piece.
pub proof fn lemma_split_extend(x: Seq<char>, y: Seq<char>, sep: char)
    requires
        !y.contains(sep),
    ensures
        split_on(x + y, sep) == split_on(x, sep).update(
            split_on(x, sep).len() - 1,
            split_on(x, sep).last() + y,
        ),
    decreases y.len(),
{
    lemma_split_nonempty(x, sep);
    if y.len() == 0 {
        assert(x + y =~= x);
        assert(split_on(x, sep).last() + y =~= split_on(x, sep).last());
        assert(split_on(x, sep).update(split_on(x, sep).len() - 1, split_on(x, sep).last())
            =~= split_on(x, sep));
    } else {
        let y0 = y.drop_last();
        assert(!y0.contains(sep)) by {
            if y0.contains(sep) {
                let k = choose|k: int| 0 <= k < y0.len() && y0[k] == sep;
                assert(y[k] == sep);
            }
        }
        lemma_split_extend(x, y0, sep);
        assert((x + y).drop_last() =~= x + y0);
        assert((x + y).last() == y.last());
        assert(y.last() != sep) by {
            assert(y[y.len() - 1] == y.last());
        }
        lemma_split_nonempty(x + y0, sep);
        assert(split_on(x, sep).last() + y0 + seq![y.last()] =~= split_on(x, sep).last() + y);
        assert((split_on(x, sep).last() + y0).push(y.last()) =~= split_on(x, sep).last() + y);
        assert(split_on(x + y, sep) =~= split_on(x, sep).update(
            split_on(x, sep).len() - 1,
            split_on(x, sep).last() + y,
        ));
    }
}

/// Splitting undoes joining, when no part holds the separator.
pub proof fn lemma_split_join(parts: Seq<Seq<char>>, sep: char)
    requires
        parts.len() >= 1,
        forall|k: int| 0 <= k < parts.len() ==> !(#[trigger] parts[k]).contains(sep),
    ensures
        split_on(join_parts(parts, seq![sep]), sep) == parts,
    decreases parts.len(),
{
    if parts.len() == 1 {
        lemma_split_extend(Seq::empty(), parts[0], sep);
        assert(Seq::<char>::empty() + parts[0] =~= parts[0]);
        assert(split_on(parts[0], sep) =~= parts);
    } else {
        let init = parts.drop_last();
        lemma_split_join(init, sep);
        let j = join_parts(init, seq![sep]);
        let js = j + seq![sep];
        assert(js.drop_last() =~= j);
        assert(split_on(js, sep) == split_on(j, sep).push(Seq::empty()));
        lemma_split_extend(js, parts.last(), sep);
        assert(Seq::<char>::empty() + parts.last() =~= parts.last());
        assert(split_on(join_parts(parts, seq![sep]), sep) =~= parts);
    }
}

/// A joined sequence of two or more parts holds the separator at the end of its first part.
proof fn lemma_join_holds_sep(parts: Seq<Seq<char>>, sep: char)
    requires
        parts.len() >= 2,
    ensures
        join_parts(parts, seq![sep]).len() > parts[0].len(),
        join_parts(parts, seq![sep])[parts[0].len() as int] == sep,
    decreases parts.len(),
{
    let init = parts.drop_last();
    let j = join_parts(init, seq![sep]);
    assert(join_parts(parts, seq![sep]) == j + seq![sep] + parts.last());
    if parts.len() > 2 {
        lemma_join_holds_sep(init, sep);
        assert(init[0] == parts[0]);
        assert((j + seq![sep] + parts.last())[parts[0].len() as int] == j[parts[0].len() as int]);
    } else {
        assert(init.len() == 1);
        assert(j == parts[0]);
        assert((j + seq![sep] + parts.last())[j.len() as int] == sep);
    }
}

/// Tags read back from the column that stored them are the same tags, as long as each
/// tag is trimmed and free of commas. (A lone empty tag reads back as no tags.)
pub proof fn lemma_tags_round_trip(tags: Seq<Seq<char>>)
    requires
        forall|k: int| 0 <= k < tags.len() ==> is_trimmed(#[trigger] tags[k]) && !tags[k].contains(
            ',',
        ),
        !(tags.len() == 1 && tags[0].len() == 0),
    ensures
        tags_of_column(tags_column(tags)) == tags,
{
    let column = tags_column(tags);
    if tags.len() == 0 {
        assert(tags_of_column(column) =~= tags);
    } else {
        assert(!all_white_space(column)) by {
            if tags.len() >= 2 {
                lemma_join_holds_sep(tags, ',');
                assert(!is_white_space(column[tags[0].len() as int]));
            } else {
                assert(column == tags[0]);
                assert(!is_white_space(column[0]));
            }
        }
        lemma_split_join(tags, ',');
        assert forall|k: int| 0 <= k < tags.len() implies trim(#[trigger] tags[k]) == tags[k] by {
            lemma_trim_of_trimmed(tags[k]);
        }
        assert(tags_of_column(column) =~= tags);
    }
}

/// The tags column for `tags`: the tags joined with commas.
pub fn join_tags(tags: &[String]) -> (column: String)
    ensures
        column@ == tags_column(texts(tags@)),
{
    let mut column = String::new();
    let mut i: usize = 0;
    while i < tags.len()
        invariant
            i <= tags@.len(),
            column@ == tags_column(texts(tags@.take(i as int))),
        decreases tags.len() - i,
    {
        let ghost before = column@;
        if i > 0 {
            column.push(',');
        }
        push_str(&mut column, tags[i].as_str());
        i += 1;
        proof {
            let parts = texts(tags@.take(i as int));
            assert(parts.drop_last() =~= texts(tags@.take(i - 1)));
            assert(parts.last() == tags@[i - 1]@);
            if i == 1 {
                assert(column@ =~= parts[0]);
            } else {
                assert(column@ =~= before + seq![','] + parts.last());
            }
        }
    }
    assert(tags@.take(tags@.len() as int) =~= tags@);
    column
}

/// The tags stored in a tags column.
pub fn parse_tags(column: &str) -> (tags: Vec<String>)
    ensures
        texts(tags@) == tags_of_column(column@),
{
    if is_blank(column) {
        let tags: Vec<String> = Vec::new();
        assert(texts(tags@) =~= Seq::<Seq<char>>::empty());
        return tags;
    }
    let v = chars_of(column);
    let n = v.len();
    let mut tags: Vec<String> = Vec::new();
    let mut start: usize = 0;
    let mut i: usize = 0;
    proof {
        assert(v@.take(0) =~= Seq::<char>::empty());
    }
    while i < n
        invariant
            n == v@.len(),
            start <= i <= n,
            split_on(v@.take(i as int), ',').len() >= 1,
            texts(tags@) == split_on(v@.take(i as int), ',').drop_last().map_values(
                |p: Seq<char>| trim(p),
            ),
            v@.subrange(start as int, i as int) == split_on(v@.take(i as int), ',').last(),
        decreases n - i,
    {
        let ghost prev = split_on(v@.take(i as int), ',');
        proof {
            assert(v@.take(i + 1).drop_last() =~= v@.take(i as int));
            assert(v@.take(i + 1).last() == v@[i as int]);
        }
        let ghost old_tags = tags@;
        if v[i] == ',' {
            let (a, b) = trim_range(v.as_slice(), start, i);
            let piece = string_from(v.as_slice(), a, b);
            tags.push(piece);
            start = i + 1;
            proof {
                let next = split_on(v@.take(i + 1), ',');
                assert(next == prev.push(Seq::empty()));
                assert(next.drop_last() =~= prev);
                assert(tags@ == old_tags.push(piece));
                assert(texts(tags@) =~= texts(old_tags).push(piece@));
                assert(prev =~= prev.drop_last().push(prev.last()));
                assert(prev.map_values(|p: Seq<char>| trim(p)) =~= prev.drop_last().map_values(
                    |p: Seq<char>| trim(p),
                ).push(trim(prev.last())));
                assert(texts(tags@) =~= next.drop_last().map_values(|p: Seq<char>| trim(p)));
                assert(v@.subrange(start as int, i + 1) =~= Seq::<char>::empty());
            }
        } else {
            proof {
                let next = split_on(v@.take(i + 1), ',');
                assert(next == prev.update(prev.len() - 1, prev.last().push(v@[i as int])));
                assert(next.drop_last() =~= prev.drop_last());
                assert(v@.subrange(start as int, i + 1) =~= prev.last().push(v@[i as int]));
            }
        }
        i += 1;
    }
    let ghost old_tags = tags@;
    let (a, b) = trim_range(v.as_slice(), start, n);
    let piece = string_from(v.as_slice(), a, b);
    tags.push(piece);
    proof {
        assert(texts(tags@) =~= texts(old_tags).push(piece@));
        assert(v@.take(n as int) =~= column@);
        let all = split_on(column@, ',');
        assert(all =~= all.drop_last().push(all.last()));
        assert(all.map_values(|p: Seq<char>| trim(p)) =~= all.drop_last().map_values(
            |p: Seq<char>| trim(p),
        ).push(trim(all.last())));
        assert(texts(tags@) =~= all.map_values(|p: Seq<char>| trim(p)));
    }
    tags
}

/// Characters that end a search term when outside quotes.
pub open spec fn is_term_break(c: char) -> bool {
    c == ' ' || c == '\t' || c == '\n'
}

/// One character of the search-query scan: the finished terms, the term being read,
/// and whether the scan is inside quotes.
pub open spec fn scan_step(st: (Seq<Seq<char>>, Seq<char>, bool), c: char) -> (
    Seq<Seq<char>>,
    Seq<char>,
    bool,
) {
    if c == '"' {
        (st.0, st.1, !st.2)
    } else if !st.2 && is_term_break(c) {
        if st.1.len() > 0 {
            (st.0.push(st.1), Seq::empty(), st.2)
        } else {
            st
        }
    } else {
        (st.0, st.1.push(c), st.2)
    }
}

/// The scan state after reading all of `s`.
pub open spec fn scan_query(s: Seq<char>) -> (Seq<Seq<char>>, Seq<char>, bool)
    decreases s.len(),
{
    if s.len() == 0 {
        (Seq::empty(), Seq::empty(), false)
    } else {
        scan_step(scan_query(s.drop_last()), s.last())
    }
}

/// The terms of a search query: runs of characters split at spaces, tabs and newlines
/// outside double quotes; the quotes themselves are dropped.
pub open spec fn query_terms(s: Seq<char>) -> Seq<Seq<char>> {
    let st = scan_query(s);
    if st.1.len() > 0 {
        st.0.push(st.1)
    } else {
        st.0
    }
}

/// The full-text clause for one term: `tag:value` searches the tags column, anything
/// else all columns, both as prefix matches; terms with nothing left after trimming
/// give no clause.
pub open spec fn term_clause(term: Seq<char>) -> Option<Seq<char>> {
    if starts_with(term, seq!['t', 'a', 'g', ':']) {
        let v = trim(term.skip(4));
        if v.len() == 0 {
            None
        } else {
            Some("tags:\""@ + v + "\"*"@)
        }
    } else {
        let v = trim(term);
        if v.len() == 0 {
            None
        } else {
            Some("\""@ + v + "\"*"@)
        }
    }
}

/// The clauses of the terms that give one, in order.
pub open spec fn term_clauses(terms: Seq<Seq<char>>) -> Seq<Seq<char>>
    decreases terms.len(),
{
    if terms.len() == 0 {
        Seq::empty()
    } else {
        let prev = term_clauses(terms.drop_last());
        match term_clause(terms.last()) {
            Some(c) => prev.push(c),
            None => prev,
        }
    }
}

/// The FTS5 `MATCH` expression for a search query: all clauses, joined with ` AND `.
pub open spec fn fts_query(s: Seq<char>) -> Seq<char> {
    join_parts(term_clauses(query_terms(s)), " AND "@)
}

proof fn lemma_clauses_nonempty(terms: Seq<Seq<char>>)
    ensures
        forall|k: int| 0 <= k < term_clauses(terms).len() ==> (#[trigger] term_clauses(terms)[k]).len()
            > 0,
    decreases terms.len(),
{
    if terms.len() > 0 {
        lemma_clauses_nonempty(terms.drop_last());
        reveal_strlit("\"*");
        let prev = term_clauses(terms.drop_last());
        if let Some(c) = term_clause(terms.last()) {
            assert(c.len() >= 2);
            assert forall|k: int| 0 <= k < prev.push(c).len() implies (#[trigger] prev.push(
                c,
            )[k]).len() > 0 by {
                if k < prev.len() {
                    assert(prev.push(c)[k] == prev[k]);
                }
            }
        }
    }
}

/// The query is empty exactly when no term gives a clause (every term blank, or a
/// bare `tag:`).
pub proof fn lemma_fts_query_empty(s: Seq<char>)
    ensures
        fts_query(s).len() == 0 <==> term_clauses(query_terms(s)).len() == 0,
{
    let parts = term_clauses(query_terms(s));
    lemma_clauses_nonempty(query_terms(s));
    if parts.len() > 0 {
        assert(parts.last().len() > 0);
        if parts.len() > 1 {
            assert(fts_query(s) == join_parts(parts.drop_last(), " AND "@) + " AND "@ + parts.last());
        }
    }
}

/// The scan state after reading `s` from state `st`.
pub open spec fn scan_from(st: (Seq<Seq<char>>, Seq<char>, bool), s: Seq<char>) -> (
    Seq<Seq<char>>,
    Seq<char>,
    bool,
)
    decreases s.len(),
{
    if s.len() == 0 {
        st
    } else {
        scan_step(scan_from(st, s.drop_last()), s.last())
    }
}

/// How many double quotes `s` holds.
pub open spec fn count_quotes(s: Seq<char>) -> nat
    decreases s.len(),
{
    if s.len() == 0 {
        0
    } else {
        count_quotes(s.drop_last()) + if s.last() == '"' {
            1nat
        } else {
            0nat
        }
    }
}

proof fn lemma_scan_concat(x: Seq<char>, y: Seq<char>)
    ensures
        scan_query(x + y) == scan_from(scan_query(x), y),
    decreases y.len(),
{
    if y.len() == 0 {
        assert(x + y =~= x);
    } else {
        lemma_scan_concat(x, y.drop_last());
        assert((x + y).drop_last() =~= x + y.drop_last());
        assert((x + y).last() == y.last());
    }
}

/// The terms already finished never influence the rest of the scan.
proof fn lemma_scan_from_terms(t: Seq<Seq<char>>, u: Seq<Seq<char>>, c: Seq<char>, q: bool, y: Seq<char>)
    ensures
        ({
            let r = scan_from((u, c, q), y);
            scan_from((t + u, c, q), y) == (t + r.0, r.1, r.2)
        }),
    decreases y.len(),
{
    if y.len() > 0 {
        lemma_scan_from_terms(t, u, c, q, y.drop_last());
        let r = scan_from((u, c, q), y.drop_last());
        assert((t + r.0).push(r.1) =~= t + r.0.push(r.1));
    }
}

proof fn lemma_quote_parity(s: Seq<char>)
    ensures
        scan_query(s).2 == (count_quotes(s) % 2 == 1),
    decreases s.len(),
{
    if s.len() > 0 {
        lemma_quote_parity(s.drop_last());
    }
}

proof fn lemma_clauses_concat(x: Seq<Seq<char>>, y: Seq<Seq<char>>)
    ensures
        term_clauses(x + y) == term_clauses(x) + term_clauses(y),
    decreases y.len(),
{
    if y.len() == 0 {
        assert(x + y =~= x);
        assert(term_clauses(x) + term_clauses(y) =~= term_clauses(x));
    } else {
        lemma_clauses_concat(x, y.drop_last());
        assert((x + y).drop_last() =~= x + y.drop_last());
        assert((x + y).last() == y.last());
        let cx = term_clauses(x);
        let cy = term_clauses(y.drop_last());
        if let Some(c) = term_clause(y.last()) {
            assert((cx + cy).push(c) =~= cx + cy.push(c));
        }
    }
}

proof fn lemma_join_concat(x: Seq<Seq<char>>, y: Seq<Seq<char>>, sep: Seq<char>)
    ensures
        join_parts(x + y, sep) == if x.len() == 0 {
            join_parts(y, sep)
        } else if y.len() == 0 {
            join_parts(x, sep)
        } else {
            join_parts(x, sep) + sep + join_parts(y, sep)
        },
    decreases y.len(),
{
    if x.len() == 0 {
        assert(x + y =~= y);
    } else if y.len() == 0 {
        assert(x + y =~= x);
    } else {
        assert((x + y).drop_last() =~= x + y.drop_last());
        assert((x + y).last() == y.last());
        lemma_join_concat(x, y.drop_last(), sep);
        if y.len() == 1 {
            assert(x + y.drop_last() =~= x);
            assert(join_parts(y, sep) == y[0]);
        } else {
            let jx = join_parts(x, sep);
            let jy = join_parts(y.drop_last(), sep);
            assert(jx + sep + jy + sep + y.last() =~= jx + sep + (jy + sep + y.last()));
        }
    }
}

/// A query whose first part has balanced quotes, followed by a space and a second part,
/// gives the two parts' queries joined with ` AND ` (an empty part adds nothing).
pub proof fn lemma_fts_query_split(a: Seq<char>, b: Seq<char>)
    requires
        count_quotes(a) % 2 == 0,
    ensures
        fts_query(a + seq![' '] + b) == if fts_query(a).len() == 0 {
            fts_query(b)
        } else if fts_query(b).len() == 0 {
            fts_query(a)
        } else {
            fts_query(a) + " AND "@ + fts_query(b)
        },
{
    let a1 = a + seq![' '];
    lemma_quote_parity(a);
    assert(a1.drop_last() =~= a);
    assert(scan_query(a1) == (query_terms(a), Seq::<char>::empty(), false));
    lemma_scan_concat(a1, b);
    lemma_scan_concat(Seq::empty(), b);
    assert(Seq::<char>::empty() + b =~= b);
    lemma_scan_from_terms(query_terms(a), Seq::empty(), Seq::empty(), false, b);
    assert(query_terms(a) + Seq::<Seq<char>>::empty() =~= query_terms(a));
    let r = scan_query(b);
    assert(query_terms(a1 + b) =~= query_terms(a) + query_terms(b)) by {
        if r.1.len() > 0 {
            assert((query_terms(a) + r.0).push(r.1) =~= query_terms(a) + r.0.push(r.1));
        }
    }
    lemma_clauses_concat(query_terms(a), query_terms(b));
    lemma_join_concat(term_clauses(query_terms(a)), term_clauses(query_terms(b)), " AND "@);
    lemma_fts_query_empty(a);
    lemma_fts_query_empty(b);
}

proof fn lemma_scan_inside_quotes(w: Seq<char>)
    requires
        !w.contains('"'),
    ensures
        scan_from((Seq::empty(), Seq::empty(), true), w) == (Seq::<Seq<char>>::empty(), w, true),
    decreases w.len(),
{
    if w.len() > 0 {
        let w0 = w.drop_last();
        assert(!w0.contains('"')) by {
            if w0.contains('"') {
                let k = choose|k: int| 0 <= k < w0.len() && w0[k] == '"';
                assert(w[k] == '"');
            }
        }
        lemma_scan_inside_quotes(w0);
        assert(w.last() != '"') by {
            assert(w[w.len() - 1] == w.last());
        }
        assert(w0.push(w.last()) =~= w);
    }
}

/// A phrase whose closing quote is missing is still one term: everything after an
/// opening quote, spaces included, is searched as typed so far.
pub proof fn lemma_unclosed_quote_keeps_term(w: Seq<char>)
    requires
        w.len() > 0,
        !w.contains('"'),
    ensures
        query_terms(seq!['"'] + w) == seq![w],
{
    lemma_scan_concat(seq!['"'], w);
    assert(seq!['"'].drop_last() =~= Seq::<char>::empty());
    assert(seq!['"'].last() == '"');
    assert(scan_query(Seq::<char>::empty()) == (Seq::<Seq<char>>::empty(), Seq::<char>::empty(), false));
    assert(scan_query(seq!['"']) == (Seq::<Seq<char>>::empty(), Seq::<char>::empty(), true));
    lemma_scan_inside_quotes(w);
    assert(query_terms(seq!['"'] + w) =~= seq![w]);
}

/// Every term a query has is searched: a query whose terms all have something besides
/// white space (and are not a bare `tag:`) gives one clause per term.
pub proof fn lemma_every_term_searched(terms: Seq<Seq<char>>)
    requires
        forall|k: int| 0 <= k < terms.len() ==> #[trigger] term_clause(terms[k]) is Some,
    ensures
        term_clauses(terms).len() == terms.len(),
    decreases terms.len(),
{
    if terms.len() > 0 {
        assert forall|k: int| 0 <= k < terms.drop_last().len() implies #[trigger] term_clause(
            terms.drop_last()[k],
        ) is Some by {
            assert(terms.drop_last()[k] == terms[k]);
        }
        lemma_every_term_searched(terms.drop_last());
        assert(term_clause(terms[terms.len() - 1]) is Some);
    }
}

/// The views of a sequence of character vectors.
pub open spec fn char_vec_views(v: Seq<Vec<char>>) -> Seq<Seq<char>> {
    v.map_values(|t: Vec<char>| t@)
}

fn append_clause(out: &mut String, produced: bool, term: &Vec<char>) -> (added: bool)
    ensures
        added == (term_clause(term@) is Some),
        term_clause(term@) matches Some(c) ==> (final(out)@ == if produced {
            old(out)@ + " AND "@ + c
        } else {
            old(out)@ + c
        }),
        term_clause(term@) is None ==> final(out)@ == old(out)@,
{
    let n = term.len();
    let is_tag = n >= 4 && term[0] == 't' && term[1] == 'a' && term[2] == 'g' && term[3] == ':';
    proof {
        if n >= 4 {
            assert(is_tag == (term@.take(4) =~= seq!['t', 'a', 'g', ':']));
        }
    }
    let lo: usize = if is_tag { 4 } else { 0 };
    let (a, b) = trim_range(term.as_slice(), lo, n);
    proof {
        assert(term@.subrange(lo as int, n as int) =~= if is_tag { term@.skip(4) } else { term@ });
    }
    if a < b {
        let ghost start = out@;
        if produced {
            push_str(out, " AND ");
        }
        let ghost with_sep = out@;
        if is_tag {
            push_str(out, "tags:\"");
        } else {
            push_str(out, "\"");
        }
        push_range(out, term.as_slice(), a, b);
        push_str(out, "\"*");
        proof {
            let v = term@.subrange(a as int, b as int);
            let c = if is_tag { "tags:\""@ + v + "\"*"@ } else { "\""@ + v + "\"*"@ };
            assert(term_clause(term@) == Some(c));
            assert(out@ =~= with_sep + c);
        }
        true
    } else {
        false
    }
}

/// Builds the FTS5 `MATCH` expression for a raw search string.
///
/// Double quotes group words into one term; `tag:value` restricts a term to the tags
/// column; every term is matched as a prefix; terms are combined with ` AND `.
pub fn build_fts_query(query: &str) -> (q: String)
    ensures
        q@ == fts_query(query@),
{
    let v = chars_of(query);
    let n = v.len();
    let mut terms: Vec<Vec<char>> = Vec::new();
    let mut current: Vec<char> = Vec::new();
    let mut in_quotes = false;
    let mut i: usize = 0;
    proof {
        assert(v@.take(0) =~= Seq::<char>::empty());
        assert(char_vec_views(terms@) =~= Seq::<Seq<char>>::empty());
    }
    while i < n
        invariant
            n == v@.len(),
            i <= n,
            scan_query(v@.take(i as int)) == (char_vec_views(terms@), current@, in_quotes),
        decreases n - i,
    {
        let c = v[i];
        let ghost before = (char_vec_views(terms@), current@, in_quotes);
        proof {
            assert(v@.take(i + 1).drop_last() =~= v@.take(i as int));
            assert(v@.take(i + 1).last() == c);
        }
        if c == '"' {
            in_quotes = !in_quotes;
        } else if !in_quotes && (c == ' ' || c == '\t' || c == '\n') {
            if current.len() > 0 {
                let ghost cur = current@;
                let ghost old_terms = terms@;
                terms.push(current);
                current = Vec::new();
                proof {
                    assert(char_vec_views(terms@) =~= char_vec_views(old_terms).push(cur));
                }
            }
        } else {
            current.push(c);
        }
        i += 1;
        proof {
            assert(scan_query(v@.take(i as int)) == scan_step(before, c));
        }
    }
    proof {
        assert(v@.take(n as int) =~= query@);
    }
    if current.len() > 0 {
        let ghost cur = current@;
        let ghost old_terms = terms@;
        terms.push(current);
        proof {
            assert(char_vec_views(terms@) =~= char_vec_views(old_terms).push(cur));
        }
    }
    let ghost all_terms = char_vec_views(terms@);
    assert(all_terms == query_terms(query@));
    let mut out = String::new();
    let mut produced = false;
    let mut k: usize = 0;
    proof {
        assert(all_terms.take(0) =~= Seq::<Seq<char>>::empty());
    }
    while k < terms.len()
        invariant
            k <= terms@.len(),
            all_terms == char_vec_views(terms@),
            out@ == join_parts(term_clauses(all_terms.take(k as int)), " AND "@),
            produced == (term_clauses(all_terms.take(k as int)).len() > 0),
        decreases terms.len() - k,
    {
        let ghost prev = term_clauses(all_terms.take(k as int));
        proof {
            assert(all_terms.take(k + 1).drop_last() =~= all_terms.take(k as int));
            assert(all_terms.take(k + 1).last() == terms@[k as int]@);
        }
        let added = append_clause(&mut out, produced, &terms[k]);
        if added {
            produced = true;
        }
        k += 1;
        proof {
            let next = term_clauses(all_terms.take(k as int));
            if added {
                assert(next == prev.push(term_clause(terms@[k - 1]@)->Some_0));
                assert(next.drop_last() =~= prev);
            } else {
                assert(next == prev);
            }
        }
    }
    proof {
        assert(all_terms.take(terms@.len() as int) =~= all_terms);
    }
    out
}

/// How to run a search: `None` lists every sentence, `Some(q)` matches `q`.
pub open spec fn search_plan_spec(query: Seq<char>) -> Option<Seq<char>> {
    let t = trim(query);
    if t.len() == 0 || fts_query(t).len() == 0 {
        None
    } else {
        Some(fts_query(t))
    }
}

/// Decides how a search runs: blank queries, and queries that give no clause (such as
/// `tag:` alone), list every sentence; anything else is matched full-text.
pub fn search_plan(query: &str) -> (plan: Option<String>)
    ensures
        opt_text(plan) == search_plan_spec(query@),
{
    let t = trimmed(query);
    if is_blank(t.as_str()) {
        proof {
            crate::text::lemma_trim_facts(query@);
        }
        return None;
    }
    let q = build_fts_query(t.as_str());
    if q.as_str().is_empty() {
        None
    } else {
        Some(q)
    }
}

/// Rows per statement in a bulk insert: six columns each keeps a statement within
/// SQLite's 999 bound parameters.
pub const BULK_INSERT_CHUNK_SIZE: usize = 100;

/// A row of the `sentences` table.
#[derive(Debug, Clone, PartialEq, Eq)]
pub struct SentenceRow {
    pub id: String,
    pub original_text: String,
    pub translated_text: String,
    pub source_context: Option<String>,
    /// The tags column: tags joined with commas.
    pub tags: String,
    /// Milliseconds since the Unix epoch.
    pub created_at: i64,
}

impl Sentence {
    /// The sentence a row holds; its tags are read from the tags column.
    pub fn from_row(row: SentenceRow) -> (s: Sentence)
        ensures
            s.id == row.id,
            s.original_text == row.original_text,
            s.translated_text == row.translated_text,
            s.source_context == row.source_context,
            texts(s.tags@) == tags_of_column(row.tags@),
            s.created_at == row.created_at,
    {
        let tags = parse_tags(row.tags.as_str());
        Sentence {
            id: row.id,
            original_text: row.original_text,
            translated_text: row.translated_text,
            source_context: row.source_context,
            tags,
            created_at: row.created_at,
        }
    }
}

/// A lower-case hexadecimal digit.
pub open spec fn is_lower_hex_digit(c: char) -> bool {
    ('0' <= c && c <= '9') || ('a' <= c && c <= 'f')
}

/// The hyphenated, lower-case text of a version-4 UUID, such as
/// `67e55044-10b1-426f-9247-bb680e5fe0c8`.
pub open spec fn is_uuid_v4_text(s: Seq<char>) -> bool {
    &&& s.len() == 36
    &&& forall|i: int|
        0 <= i < 36 ==> if i == 8 || i == 13 || i == 18 || i == 23 {
            s[i] == '-'
        } else {
            is_lower_hex_digit(#[trigger] s[i])
        }
    &&& s[14] == '4'
}

/// A fresh random identifier: `uuid::Uuid::new_v4`, rendered by its `Display` impl,
/// which writes the hyphenated lower-case form. The value itself is random.
#[verifier::external_body]
fn random_uuid_text() -> (id: String)
    ensures
        is_uuid_v4_text(id@),
{
    uuid::Uuid::new_v4().to_string()
}

/// The current time in milliseconds since the Unix epoch (`chrono::Utc::now` and
/// `DateTime::timestamp_millis`). It depends on the clock, so nothing is promised.
#[verifier::external_body]
fn now_millis() -> (t: i64) {
    chrono::Utc::now().timestamp_millis()
}

/// Copies of `tags`.
pub fn copy_tags(tags: &[String]) -> (r: Vec<String>)
    ensures
        texts(r@) == texts(tags@),
{
    let mut r: Vec<String> = Vec::new();
    let mut i: usize = 0;
    while i < tags.len()
        invariant
            i <= tags@.len(),
            texts(r@) == texts(tags@.take(i as int)),
        decreases tags.len() - i,
    {
        let ghost before = r@;
        r.push(owned(tags[i].as_str()));
        i += 1;
        proof {
            assert(texts(r@) =~= texts(before).push(tags@[i - 1]@));
            assert(texts(tags@.take(i as int)) =~= texts(tags@.take(i - 1)).push(tags@[i - 1]@));
        }
    }
    assert(tags@.take(tags@.len() as int) =~= tags@);
    r
}

/// The record of a sentence captured at clock reading `created_at` (milliseconds since
/// the Unix epoch) under identifier `id`, holding copies of the given texts and tags.
pub fn sentence_record_at(
    id: String,
    created_at: i64,
    original_text: &str,
    translated_text: &str,
    source_context: Option<&str>,
    tags: &[String],
) -> (s: Sentence)
    ensures
        s.id@ == id@,
        s.created_at == created_at,
        s.original_text@ == original_text@,
        s.translated_text@ == translated_text@,
        opt_text(s.source_context) == match source_context {
            Some(c) => Some(c@),
            None => None::<Seq<char>>,
        },
        texts(s.tags@) == texts(tags@),
{
    let source_context = match source_context {
        Some(c) => Some(owned(c)),
        None => None,
    };
    Sentence {
        id,
        original_text: owned(original_text),
        translated_text: owned(translated_text),
        source_context,
        tags: copy_tags(tags),
        created_at,
    }
}

/// The record of a newly captured sentence: a fresh random id, the current time, and
/// the given texts and tags.
pub fn new_sentence_record(
    original_text: &str,
    translated_text: &str,
    source_context: Option<&str>,
    tags: &[String],
) -> (s: Sentence)
    ensures
        is_uuid_v4_text(s.id@),
        s.original_text@ == original_text@,
        s.translated_text@ == translated_text@,
        opt_text(s.source_context) == match source_context {
            Some(c) => Some(c@),
            None => None::<Seq<char>>,
        },
        texts(s.tags@) == texts(tags@),
{
    let id = random_uuid_text();
    let created_at = now_millis();
    sentence_record_at(id, created_at, original_text, translated_text, source_context, tags)
}

/// The `(start, end)` bounds of the bulk-insert statements for `len` sentences: runs of
/// `BULK_INSERT_CHUNK_SIZE`, the last one possibly shorter, covering all in order.
pub fn chunk_ranges(len: usize) -> (r: Vec<(usize, usize)>)
    ensures
        r@.len() == (len + 99) / 100,
        forall|k: int|
            0 <= k < r@.len() ==> (#[trigger] r@[k]).0 == 100 * k && r@[k].1 == if 100 * k + 100
                <= len {
                100 * k + 100
            } else {
                len as int
            },
{
    let mut r: Vec<(usize, usize)> = Vec::new();
    let mut start: usize = 0;
    while start < len
        invariant
            start <= len,
            start == if 100 * r@.len() <= len {
                100 * r@.len() as int
            } else {
                len as int
            },
            r@.len() > 0 ==> 100 * (r@.len() - 1) < len,
            forall|k: int|
                0 <= k < r@.len() ==> (#[trigger] r@[k]).0 == 100 * k && r@[k].1 == if 100 * k
                    + 100 <= len {
                    100 * k + 100
                } else {
                    len as int
                },
        decreases len - start,
    {
        let end = if len - start > BULK_INSERT_CHUNK_SIZE {
            start + BULK_INSERT_CHUNK_SIZE
        } else {
            len
        };
        r.push((start, end));
        start = end;
    }
    proof {
        let m = r@.len() as int;
        assert(100 * m >= len);
        assert(m == (len + 99) / 100) by (nonlinear_arith)
            requires
                100 * m >= len,
                m > 0 ==> 100 * (m - 1) < len,
                m >= 0,
                len >= 0,
        ;
    }
    r
}

/// A database failure as the sentence logic sees it.
#[derive(Debug, Clone, PartialEq, Eq)]
pub enum DbFailure {
    /// The statement matched no row.
    RowNotFound,
    /// Any other failure, with its description.
    Other(String),
}

/// An update or delete that changed no row names a sentence that does not exist.
pub fn require_changed_row(rows_affected: u64) -> (r: Result<(), DbFailure>)
    ensures
        r is Ok <==> rows_affected > 0,
        r is Err ==> r == Err::<(), DbFailure>(DbFailure::RowNotFound),
{
    if rows_affected == 0 {
        Err(DbFailure::RowNotFound)
    } else {
        Ok(())
    }
}

} // verus!
