//! The SQL that the persistence layer runs: the search query of the event
//! list with its parameters, the limits, and the connection settings.
use vstd::prelude::*;

use crate::config::StorageConfig;
use crate::digits::{decimal, decimal_chars};
use crate::text::{
    ascii_lower, ascii_lowercase, chars_of, contains_seq, occurs_at, split_words, string_from_chars, trim, trim_chars,
    words,
};

verus! {

/// How `c` is written inside a `LIKE` pattern that uses `\` as its escape
/// character: the wildcards `%` and `_`, and `\` itself, are escaped.
pub open spec fn like_escape_char(c: char) -> Seq<char> {
    if c == '\\' || c == '%' || c == '_' {
        seq!['\\', c]
    } else {
        seq![c]
    }
}

/// `term` with every wildcard and escape character escaped.
pub open spec fn like_escaped(term: Seq<char>) -> Seq<char>
    decreases term.len(),
{
    if term.len() == 0 {
        Seq::empty()
    } else {
        like_escape_char(term[0]) + like_escaped(term.drop_first())
    }
}

/// What a `LIKE ... ESCAPE '\'` pattern matches when it holds no wildcard:
/// the text it stands for, or `None` where it holds an unescaped `%` or
/// `_` (or ends in a lone `\`).
pub open spec fn like_literal(p: Seq<char>) -> Option<Seq<char>>
    decreases p.len(),
{
    if p.len() == 0 {
        Some(Seq::empty())
    } else if p[0] == '\\' {
        if p.len() < 2 {
            None
        } else {
            match like_literal(p.skip(2)) {
                Some(rest) => Some(seq![p[1]] + rest),
                None => None,
            }
        }
    } else if p[0] == '%' || p[0] == '_' {
        None
    } else {
        match like_literal(p.drop_first()) {
            Some(rest) => Some(seq![p[0]] + rest),
            None => None,
        }
    }
}

proof fn lemma_like_escaped_push(s: Seq<char>, c: char)
    ensures
        like_escaped(s.push(c)) == like_escaped(s) + like_escape_char(c),
    decreases s.len(),
{
    if s.len() == 0 {
        assert(s.push(c).drop_first() =~= Seq::<char>::empty());
        assert(like_escaped(Seq::<char>::empty()) =~= Seq::<char>::empty());
        assert(s.push(c)[0] == c);
        assert(like_escaped(s.push(c)) == like_escape_char(c) + like_escaped(Seq::<char>::empty()));
        assert(like_escaped(s.push(c)) =~= like_escape_char(c));
        assert(like_escaped(s) =~= Seq::<char>::empty());
    } else {
        lemma_like_escaped_push(s.drop_first(), c);
        assert(s.push(c).drop_first() =~= s.drop_first().push(c));
        assert(like_escaped(s.push(c)) =~= like_escaped(s) + like_escape_char(c));
    }
}

/// An escaped search term holds no wildcard: as a `LIKE` pattern it
/// stands for exactly the term.
pub proof fn law_escaped_term_is_literal(term: Seq<char>)
    ensures
        like_literal(like_escaped(term)) == Some(term),
    decreases term.len(),
{
    if term.len() > 0 {
        law_escaped_term_is_literal(term.drop_first());
        let e = like_escaped(term);
        let c = term[0];
        let rest = like_escaped(term.drop_first());
        if c == '\\' || c == '%' || c == '_' {
            assert(e.skip(2) =~= rest);
            assert(seq![c] + term.drop_first() =~= term);
        } else {
            assert(e.drop_first() =~= rest);
            assert(seq![c] + term.drop_first() =~= term);
        }
    } else {
        assert(like_escaped(term) =~= Seq::<char>::empty());
    }
}

/// What SQLite's `s LIKE p ESCAPE '\'` gives (with `case_sensitive_like`
/// off, as by default): `%` matches any run of characters, `_` any one
/// character, `\` makes the character after it match itself, and every
/// other character matches itself with ASCII letters compared without
/// regard to case. A pattern that ends in a lone `\` matches nothing.
pub open spec fn sqlite_like(s: Seq<char>, p: Seq<char>) -> bool
    decreases p.len(), s.len(),
{
    if p.len() == 0 {
        s.len() == 0
    } else if p[0] == '%' {
        sqlite_like(s, p.drop_first()) || (s.len() > 0 && sqlite_like(s.drop_first(), p))
    } else if s.len() == 0 {
        false
    } else if p[0] == '_' {
        sqlite_like(s.drop_first(), p.drop_first())
    } else if p[0] == '\\' {
        p.len() >= 2 && ascii_lower(s[0]) == ascii_lower(p[1]) && sqlite_like(s.drop_first(), p.skip(2))
    } else {
        ascii_lower(s[0]) == ascii_lower(p[0]) && sqlite_like(s.drop_first(), p.drop_first())
    }
}

proof fn lemma_lowercase_cons(a: Seq<char>, b: Seq<char>)
    requires
        a.len() > 0,
        a.len() == b.len(),
    ensures
        ascii_lowercase(a) == ascii_lowercase(b) <==> (ascii_lower(a[0]) == ascii_lower(b[0])
            && ascii_lowercase(a.drop_first()) == ascii_lowercase(b.drop_first())),
{
    assert(ascii_lowercase(a.drop_first()) =~= ascii_lowercase(a).drop_first());
    assert(ascii_lowercase(b.drop_first()) =~= ascii_lowercase(b).drop_first());
    if ascii_lowercase(a) == ascii_lowercase(b) {
        assert(ascii_lowercase(a)[0] == ascii_lower(a[0]));
        assert(ascii_lowercase(b)[0] == ascii_lower(b[0]));
    }
    if ascii_lower(a[0]) == ascii_lower(b[0]) && ascii_lowercase(a.drop_first()) == ascii_lowercase(
        b.drop_first(),
    ) {
        assert forall|i: int| 0 <= i < a.len() implies ascii_lowercase(a)[i] == ascii_lowercase(b)[i] by {
            if i > 0 {
                assert(ascii_lowercase(a.drop_first())[i - 1] == ascii_lowercase(b.drop_first())[i - 1]);
            }
        }
        assert(ascii_lowercase(a) =~= ascii_lowercase(b));
    }
}

/// An escaped term at the head of a pattern matches exactly the text that
/// begins with the term, ASCII letters compared without case.
proof fn lemma_escaped_prefix(s: Seq<char>, t: Seq<char>, q: Seq<char>)
    ensures
        sqlite_like(s, like_escaped(t) + q) <==> (t.len() <= s.len() && ascii_lowercase(s.take(t.len() as int))
            == ascii_lowercase(t) && sqlite_like(s.skip(t.len() as int), q)),
    decreases t.len(),
{
    if t.len() == 0 {
        assert(like_escaped(t) =~= Seq::<char>::empty());
        assert(like_escaped(t) + q =~= q);
        assert(s.skip(0) =~= s);
        assert(ascii_lowercase(s.take(0)) =~= ascii_lowercase(t));
    } else {
        let c = t[0];
        let p = like_escaped(t) + q;
        let tail = like_escaped(t.drop_first()) + q;
        assert(like_escaped(t) == like_escape_char(c) + like_escaped(t.drop_first()));
        if c == '\\' || c == '%' || c == '_' {
            assert(p[0] == '\\');
            assert(p[1] == c);
            assert(p.skip(2) =~= tail);
        } else {
            assert(p[0] == c);
            assert(p.drop_first() =~= tail);
        }
        if s.len() > 0 {
            lemma_escaped_prefix(s.drop_first(), t.drop_first(), q);
            if t.len() <= s.len() {
                let n = t.len() as int;
                lemma_lowercase_cons(s.take(n), t);
                assert(s.take(n).drop_first() =~= s.drop_first().take(n - 1));
                assert(s.skip(n) =~= s.drop_first().skip(n - 1));
            }
        }
    }
}

/// The pattern `%` followed by `r` matches from some position on.
pub open spec fn matches_from(s: Seq<char>, r: Seq<char>, k: int) -> bool {
    0 <= k <= s.len() && sqlite_like(s.skip(k), r)
}

proof fn lemma_leading_percent(s: Seq<char>, r: Seq<char>)
    ensures
        sqlite_like(s, seq!['%'] + r) <==> exists|k: int| #[trigger] matches_from(s, r, k),
    decreases s.len(),
{
    let p = seq!['%'] + r;
    assert(p[0] == '%');
    assert(p.drop_first() =~= r);
    assert(s.skip(0) =~= s);
    if s.len() == 0 {
        if exists|k: int| #[trigger] matches_from(s, r, k) {
            let k = choose|k: int| #[trigger] matches_from(s, r, k);
            assert(k == 0);
        }
        if sqlite_like(s, r) {
            assert(matches_from(s, r, 0));
        }
    } else {
        let d = s.drop_first();
        lemma_leading_percent(d, r);
        if sqlite_like(s, p) {
            if sqlite_like(s, r) {
                assert(matches_from(s, r, 0));
            } else {
                let k = choose|k: int| #[trigger] matches_from(d, r, k);
                assert(d.skip(k) =~= s.skip(k + 1));
                assert(matches_from(s, r, k + 1));
            }
        }
        if exists|k: int| #[trigger] matches_from(s, r, k) {
            let k = choose|k: int| #[trigger] matches_from(s, r, k);
            if k > 0 {
                assert(d.skip(k - 1) =~= s.skip(k));
                assert(matches_from(d, r, k - 1));
            }
        }
    }
}

/// A search term's pattern matches a field exactly when the field contains
/// the term, ASCII letters compared without case: `%`, `_` and `\` in the
/// term match only themselves.
pub proof fn law_search_term_matches_containing_text(s: Seq<char>, t: Seq<char>)
    ensures
        sqlite_like(s, term_pattern(t)) <==> contains_seq(ascii_lowercase(s), ascii_lowercase(t)),
{
    reveal_strlit("%");
    let e = like_escaped(t);
    let r = e + seq!['%'];
    let n = t.len() as int;
    assert(term_pattern(t) =~= seq!['%'] + r);
    lemma_leading_percent(s, r);
    if sqlite_like(s, term_pattern(t)) {
        let k = choose|k: int| #[trigger] matches_from(s, r, k);
        lemma_escaped_prefix(s.skip(k), t, seq!['%']);
        assert(ascii_lowercase(s).subrange(k, k + n) =~= ascii_lowercase(s.skip(k).take(n)));
        assert(occurs_at(ascii_lowercase(s), ascii_lowercase(t), k));
    }
    if contains_seq(ascii_lowercase(s), ascii_lowercase(t)) {
        let i = choose|i: int| occurs_at(ascii_lowercase(s), ascii_lowercase(t), i);
        lemma_escaped_prefix(s.skip(i), t, seq!['%']);
        assert(ascii_lowercase(s).subrange(i, i + n) =~= ascii_lowercase(s.skip(i).take(n)));
        let rest = s.skip(i).skip(n);
        lemma_leading_percent(rest, Seq::<char>::empty());
        assert(seq!['%'] + Seq::<char>::empty() =~= seq!['%']);
        assert(rest.skip(rest.len() as int) =~= Seq::<char>::empty());
        assert(matches_from(rest, Seq::<char>::empty(), rest.len() as int));
        assert(matches_from(s, r, i));
    }
}

fn escape_like_chars(term: &[char]) -> (r: Vec<char>)
    ensures
        r@ == like_escaped(term@),
{
    let mut out: Vec<char> = Vec::new();
    let mut i: usize = 0;
    while i < term.len()
        invariant
            i <= term@.len(),
            out@ == like_escaped(term@.take(i as int)),
        decreases term@.len() - i,
    {
        let c = term[i];
        proof {
            assert(term@.take(i + 1) =~= term@.take(i as int).push(c));
            lemma_like_escaped_push(term@.take(i as int), c);
        }
        if c == '\\' || c == '%' || c == '_' {
            out.push('\\');
        }
        out.push(c);
        assert(out@ =~= like_escaped(term@.take(i + 1)));
        i = i + 1;
    }
    assert(term@.take(term@.len() as int) =~= term@);
    out
}

/// `term` made literal for a `LIKE ... ESCAPE '\'` pattern: every `\`,
/// `%` and `_` preceded by `\`.
pub fn escape_like_term(term: &str) -> (r: String)
    ensures
        r@ == like_escaped(term@),
{
    let cs = chars_of(term);
    let esc = escape_like_chars(cs.as_slice());
    string_from_chars(esc.as_slice())
}

/// The event rows, with their columns in the order the rows are read.
pub const SELECT_EVENTS: &'static str = "SELECT id, timestamp, source, payload_type, payload_data, window_title, source_app, content_hash, pinned, created_at, classification FROM events";

/// Only pinned events.
pub const PINNED_CLAUSE: &'static str = "pinned = 1";

/// Only events of one source application.
pub const SOURCE_APP_CLAUSE: &'static str = "source_app = ?";

/// Only events of one classification.
pub const CLASSIFICATION_CLAUSE: &'static str = "classification = ?";

/// The condition that one search term puts on an event: the term occurs in
/// its payload, source application, window title, classification, source,
/// or its local date written `YYYY-MM-DD` or `MM/DD/YYYY`.
pub const SEARCH_TERM_CLAUSE: &'static str = "(payload_data LIKE ? ESCAPE '\\' OR source_app LIKE ? ESCAPE '\\' OR window_title LIKE ? ESCAPE '\\' OR classification LIKE ? ESCAPE '\\' OR source LIKE ? ESCAPE '\\' OR strftime('%Y-%m-%d', timestamp / 1000, 'unixepoch', 'localtime') LIKE ? ESCAPE '\\' OR strftime('%m/%d/%Y', timestamp / 1000, 'unixepoch', 'localtime') LIKE ? ESCAPE '\\')";

/// How many parameters one search term binds.
pub const SEARCH_TERM_PARAMS: usize = 7;

/// Pinned events first, newest first, at most 1000 rows.
pub const EVENTS_ORDER: &'static str = " ORDER BY pinned DESC, timestamp DESC LIMIT 1000";

/// The search terms of a query: the words of the trimmed query.
pub open spec fn search_terms(query: Option<Seq<char>>) -> Seq<Seq<char>> {
    match query {
        Some(q) => if trim(q).len() > 0 {
            words(trim(q))
        } else {
            Seq::empty()
        },
        None => Seq::empty(),
    }
}

/// The conditions of the event list query, in order.
pub open spec fn events_clauses(
    pinned_only: Option<bool>,
    source_app: Option<Seq<char>>,
    classification: Option<Seq<char>>,
    query: Option<Seq<char>>,
) -> Seq<Seq<char>> {
    (if pinned_only == Some(true) {
        seq![PINNED_CLAUSE@]
    } else {
        Seq::empty()
    }) + (if source_app is Some {
        seq![SOURCE_APP_CLAUSE@]
    } else {
        Seq::empty()
    }) + (if classification is Some {
        seq![CLASSIFICATION_CLAUSE@]
    } else {
        Seq::empty()
    }) + Seq::new(search_terms(query).len(), |i: int| SEARCH_TERM_CLAUSE@)
}

/// The `LIKE` pattern of a search term: the escaped term anywhere.
pub open spec fn term_pattern(term: Seq<char>) -> Seq<char> {
    "%"@ + like_escaped(term) + "%"@
}

/// The parameters that the search terms bind: each term's pattern seven
/// times, term after term.
pub open spec fn term_params(terms: Seq<Seq<char>>) -> Seq<Seq<char>>
    decreases terms.len(),
{
    if terms.len() == 0 {
        Seq::empty()
    } else {
        term_params(terms.drop_last()) + Seq::new(7, |i: int| term_pattern(terms.last()))
    }
}

/// The parameters of the event list query, in the order of their
/// placeholders: the source application, the classification, then each
/// term's pattern seven times.
pub open spec fn events_params(
    source_app: Option<Seq<char>>,
    classification: Option<Seq<char>>,
    query: Option<Seq<char>>,
) -> Seq<Seq<char>> {
    (match source_app {
        Some(a) => seq![a],
        None => Seq::empty(),
    }) + (match classification {
        Some(c) => seq![c],
        None => Seq::empty(),
    }) + term_params(search_terms(query))
}

/// The pieces of `ls` joined with `sep` between them.
pub open spec fn joined(ls: Seq<Seq<char>>, sep: Seq<char>) -> Seq<char>
    decreases ls.len(),
{
    if ls.len() == 0 {
        Seq::empty()
    } else if ls.len() == 1 {
        ls[0]
    } else {
        joined(ls.drop_last(), sep) + sep + ls.last()
    }
}

/// The event list query: all conditions joined with `AND`, pinned events
/// first, newest first, at most 1000 rows.
pub open spec fn events_sql(clauses: Seq<Seq<char>>) -> Seq<char> {
    SELECT_EVENTS@ + (if clauses.len() == 0 {
        Seq::empty()
    } else {
        " WHERE "@ + joined(clauses, " AND "@)
    }) + EVENTS_ORDER@
}

/// A search of only whitespace builds the same SQL and parameters as no
/// search, and queries that differ only in the whitespace around and
/// between their words build the same SQL and parameters.
pub proof fn law_blank_search_is_no_search(
    pinned_only: Option<bool>,
    source_app: Option<Seq<char>>,
    classification: Option<Seq<char>>,
    q: Seq<char>,
    q2: Seq<char>,
)
    ensures
        trim(q).len() == 0 ==> events_clauses(pinned_only, source_app, classification, Some(q))
            == events_clauses(pinned_only, source_app, classification, None) && events_params(
            source_app,
            classification,
            Some(q),
        ) == events_params(source_app, classification, None),
        words(trim(q)) == words(trim(q2)) && (trim(q).len() == 0) == (trim(q2).len() == 0) ==> events_clauses(
            pinned_only,
            source_app,
            classification,
            Some(q),
        ) == events_clauses(pinned_only, source_app, classification, Some(q2)) && events_params(
            source_app,
            classification,
            Some(q),
        ) == events_params(source_app, classification, Some(q2)),
{
}

proof fn lemma_term_params_index(terms: Seq<Seq<char>>)
    ensures
        term_params(terms).len() == 7 * terms.len(),
        forall|i: int, k: int|
            0 <= i < terms.len() && 0 <= k < 7 ==> #[trigger] term_params(terms)[7 * i + k] == "%"@
                + like_escaped(terms[i]) + "%"@,
    decreases terms.len(),
{
    if terms.len() > 0 {
        let pre = terms.drop_last();
        lemma_term_params_index(pre);
        let n = terms.len() - 1;
        assert forall|i: int, k: int| 0 <= i < terms.len() && 0 <= k < 7 implies #[trigger] term_params(
            terms,
        )[7 * i + k] == "%"@ + like_escaped(terms[i]) + "%"@ by {
            if i < n {
                assert(terms[i] == pre[i]);
                assert(term_params(terms)[7 * i + k] == term_params(pre)[7 * i + k]);
            } else {
                assert(term_params(terms)[7 * i + k] == term_pattern(terms.last()));
            }
        }
    }
}

/// Every word of a search becomes a condition of the query: one search
/// clause per word of the trimmed query, after the other filters, and
/// seven parameters per word, each the word made literal and wrapped in
/// `%`, word after word.
pub proof fn law_every_word_is_searched(
    pinned_only: Option<bool>,
    source_app: Option<Seq<char>>,
    classification: Option<Seq<char>>,
    q: Seq<char>,
)
    requires
        trim(q).len() > 0,
    ensures
        events_clauses(pinned_only, source_app, classification, Some(q)) == events_clauses(
            pinned_only,
            source_app,
            classification,
            None,
        ) + Seq::new(words(trim(q)).len(), |i: int| SEARCH_TERM_CLAUSE@),
        events_params(source_app, classification, Some(q)).len() == events_params(
            source_app,
            classification,
            None,
        ).len() + 7 * words(trim(q)).len(),
        forall|i: int, k: int|
            0 <= i < words(trim(q)).len() && 0 <= k < 7 ==> #[trigger] events_params(
                source_app,
                classification,
                Some(q),
            )[events_params(source_app, classification, None).len() + 7 * i + k] == "%"@ + like_escaped(
                words(trim(q))[i],
            ) + "%"@,
{
    let ws = words(trim(q));
    lemma_term_params_index(ws);
    let base = events_params(source_app, classification, None);
    assert(term_params(Seq::<Seq<char>>::empty()) =~= Seq::<Seq<char>>::empty());
    assert(Seq::new(0, |i: int| SEARCH_TERM_CLAUSE@) =~= Seq::<Seq<char>>::empty());
    assert(events_clauses(pinned_only, source_app, classification, Some(q)) =~= events_clauses(
        pinned_only,
        source_app,
        classification,
        None,
    ) + Seq::new(ws.len(), |i: int| SEARCH_TERM_CLAUSE@));
    assert(events_params(source_app, classification, Some(q)) =~= base + term_params(ws));
    assert forall|i: int, k: int| 0 <= i < ws.len() && 0 <= k < 7 implies #[trigger] events_params(
        source_app,
        classification,
        Some(q),
    )[base.len() + 7 * i + k] == "%"@ + like_escaped(ws[i]) + "%"@ by {
        assert(term_params(ws)[7 * i + k] == "%"@ + like_escaped(ws[i]) + "%"@);
    }
}

/// A query with its parameters.
#[derive(Debug)]
pub struct EventsQuery {
    pub sql: String,
    pub params: Vec<String>,
}

fn push_str_chars(out: &mut Vec<char>, s: &str)
    ensures
        final(out)@ == old(out)@ + s@,
{
    let cs = chars_of(s);
    let mut i: usize = 0;
    while i < cs.len()
        invariant
            i <= cs@.len(),
            cs@ == s@,
            out@ == old(out)@ + cs@.take(i as int),
        decreases cs@.len() - i,
    {
        out.push(cs[i]);
        i = i + 1;
        assert(out@ =~= old(out)@ + cs@.take(i as int));
    }
    assert(cs@.take(cs@.len() as int) =~= cs@);
}

pub open spec fn opt_view(o: Option<&str>) -> Option<Seq<char>> {
    match o {
        Some(s) => Some(s@),
        None => None,
    }
}

pub open spec fn str_views(v: Seq<&str>) -> Seq<Seq<char>> {
    v.map_values(|c: &str| c@)
}

pub open spec fn string_views(v: Seq<String>) -> Seq<Seq<char>> {
    v.map_values(|c: String| c@)
}

fn search_terms_of(query: Option<&str>) -> (r: Vec<Vec<char>>)
    ensures
        r@.len() == search_terms(opt_view(query)).len(),
        forall|i: int| 0 <= i < r@.len() ==> #[trigger] r@[i]@ == search_terms(opt_view(query))[i],
{
    match query {
        Some(qs) => {
            let qc = chars_of(qs);
            let t = trim_chars(qc.as_slice());
            if t.len() > 0 {
                split_words(t.as_slice())
            } else {
                Vec::new()
            }
        },
        None => Vec::new(),
    }
}

/// `%`, the escaped term, `%`.
fn term_pattern_of(term: &[char]) -> (r: String)
    ensures
        r@ == term_pattern(term@),
{
    let esc = escape_like_chars(term);
    let mut pat: Vec<char> = Vec::new();
    pat.push('%');
    let mut m: usize = 0;
    while m < esc.len()
        invariant
            m <= esc@.len(),
            pat@ == seq!['%'] + esc@.take(m as int),
        decreases esc@.len() - m,
    {
        pat.push(esc[m]);
        m = m + 1;
        assert(pat@ =~= seq!['%'] + esc@.take(m as int));
    }
    pat.push('%');
    proof {
        reveal_strlit("%");
        assert(esc@.take(esc@.len() as int) =~= esc@);
        assert(pat@ =~= "%"@ + esc@ + "%"@);
    }
    string_from_chars(pat.as_slice())
}

/// The event list query for the given filters: only pinned events where
/// `pinned_only` is `Some(true)`, events of one source application or
/// classification, and events that match every word of `query`.
pub fn events_query(
    pinned_only: Option<bool>,
    source_app: Option<&str>,
    classification: Option<&str>,
    query: Option<&str>,
) -> (r: EventsQuery)
    ensures
        r.sql@ == events_sql(
            events_clauses(pinned_only, opt_view(source_app), opt_view(classification), opt_view(query)),
        ),
        string_views(r.params@) == events_params(
            opt_view(source_app),
            opt_view(classification),
            opt_view(query),
        ),
{
    let ghost sa = opt_view(source_app);
    let ghost cl = opt_view(classification);
    let ghost q = opt_view(query);
    let ghost st = search_terms(q);
    let mut clauses: Vec<&str> = Vec::new();
    let mut params: Vec<String> = Vec::new();
    if pinned_only == Some(true) {
        clauses.push(PINNED_CLAUSE);
    }
    if let Some(app) = source_app {
        clauses.push(SOURCE_APP_CLAUSE);
        params.push(String::from_str(app));
    }
    if let Some(class) = classification {
        clauses.push(CLASSIFICATION_CLAUSE);
        params.push(String::from_str(class));
    }
    let ghost fixed_clauses = str_views(clauses@);
    let ghost fixed_params = string_views(params@);
    proof {
        let pc = if pinned_only == Some(true) {
            seq![PINNED_CLAUSE@]
        } else {
            Seq::<Seq<char>>::empty()
        };
        let ac = if sa is Some {
            seq![SOURCE_APP_CLAUSE@]
        } else {
            Seq::<Seq<char>>::empty()
        };
        let cc = if cl is Some {
            seq![CLASSIFICATION_CLAUSE@]
        } else {
            Seq::<Seq<char>>::empty()
        };
        assert(fixed_clauses =~= pc + ac + cc);
        let ap = match sa {
            Some(a) => seq![a],
            None => Seq::<Seq<char>>::empty(),
        };
        let cp = match cl {
            Some(c) => seq![c],
            None => Seq::<Seq<char>>::empty(),
        };
        assert(fixed_params =~= ap + cp);
    }
    let terms = search_terms_of(query);
    let mut k: usize = 0;
    while k < terms.len()
        invariant
            k <= terms@.len(),
            terms@.len() == st.len(),
            forall|i: int| 0 <= i < terms@.len() ==> #[trigger] terms@[i]@ == st[i],
            str_views(clauses@) == fixed_clauses + Seq::new(k as nat, |i: int| SEARCH_TERM_CLAUSE@),
            string_views(params@) == fixed_params + term_params(st.take(k as int)),
        decreases terms@.len() - k,
    {
        let like = term_pattern_of(terms[k].as_slice());
        let ghost before = string_views(params@);
        let ghost cb = str_views(clauses@);
        clauses.push(SEARCH_TERM_CLAUSE);
        assert(str_views(clauses@) =~= cb.push(SEARCH_TERM_CLAUSE@));
        assert(str_views(clauses@) =~= fixed_clauses + Seq::new((k + 1) as nat, |i: int| SEARCH_TERM_CLAUSE@));
        let mut j: usize = 0;
        while j < SEARCH_TERM_PARAMS
            invariant
                j <= SEARCH_TERM_PARAMS,
                k < st.len(),
                like@ == term_pattern(st[k as int]),
                string_views(params@) == before + Seq::new(j as nat, |i: int| term_pattern(st[k as int])),
            decreases SEARCH_TERM_PARAMS - j,
        {
            let ghost b2 = string_views(params@);
            params.push(like.clone());
            j = j + 1;
            assert(string_views(params@) =~= b2.push(like@));
            assert(string_views(params@) =~= before + Seq::new(j as nat, |i: int| term_pattern(st[k as int])));
        }
        proof {
            let t = st.take(k + 1);
            assert(t.drop_last() =~= st.take(k as int));
            assert(t.last() == st[k as int]);
            assert(term_params(t) == term_params(st.take(k as int)) + Seq::new(7, |i: int| term_pattern(st[k as int])));
            assert(string_views(params@) =~= fixed_params + term_params(t));
        }
        k = k + 1;
    }
    proof {
        assert(st.take(st.len() as int) =~= st);
        assert(str_views(clauses@) =~= events_clauses(pinned_only, sa, cl, q));
    }
    let ghost cv = str_views(clauses@);
    let mut sql: Vec<char> = Vec::new();
    push_str_chars(&mut sql, SELECT_EVENTS);
    if clauses.len() > 0 {
        push_str_chars(&mut sql, " WHERE ");
        let ghost head = sql@;
        let mut i: usize = 0;
        while i < clauses.len()
            invariant
                i <= clauses@.len(),
                cv == str_views(clauses@),
                sql@ == head + joined(cv.take(i as int), " AND "@),
            decreases clauses@.len() - i,
        {
            let ghost b = sql@;
            if i > 0 {
                push_str_chars(&mut sql, " AND ");
            }
            push_str_chars(&mut sql, clauses[i]);
            proof {
                let t = cv.take(i + 1);
                assert(t.drop_last() =~= cv.take(i as int));
                assert(t.last() == clauses@[i as int]@);
                if i == 0 {
                    assert(joined(cv.take(0), " AND "@) =~= Seq::<char>::empty());
                    assert(sql@ =~= head + joined(t, " AND "@));
                } else {
                    assert(sql@ =~= head + joined(t, " AND "@));
                }
            }
            i = i + 1;
        }
        assert(cv.take(cv.len() as int) =~= cv);
    }
    push_str_chars(&mut sql, EVENTS_ORDER);
    assert(sql@ =~= events_sql(cv));
    EventsQuery { sql: string_from_chars(sql.as_slice()), params }
}


/// The most recent events that the quick overlay asks for: between 1 and
/// 100 of them.
pub fn recent_events_limit(limit: usize) -> (r: i64)
    ensures
        r == if limit < 1 {
            1
        } else if limit > 100 {
            100
        } else {
            limit as int
        },
        1 <= r <= 100,
{
    if limit < 1 {
        1
    } else if limit > 100 {
        100
    } else {
        limit as i64
    }
}

/// The most recent events, newest first, at most as many as the parameter.
pub const SELECT_RECENT_EVENTS: &'static str = "SELECT id, timestamp, source, payload_type, payload_data, window_title, source_app, content_hash, pinned, created_at, classification FROM events ORDER BY timestamp DESC LIMIT ?";

/// One event by its identifier.
pub const SELECT_EVENT_BY_ID: &'static str = "SELECT id, timestamp, source, payload_type, payload_data, window_title, source_app, content_hash, pinned, created_at, classification FROM events WHERE id = ?";

/// Stores an event row.
pub const INSERT_EVENT: &'static str = "INSERT INTO events (id, timestamp, source, payload_type, payload_data, window_title, source_app, content_hash, pinned, created_at, classification) VALUES (?, ?, ?, ?, ?, ?, ?, ?, ?, ?, ?)";

/// Stores a blob, keeping one already stored under the same hash.
pub const INSERT_BLOB: &'static str = "INSERT OR IGNORE INTO blobs (content_hash, mime, data, created_at) VALUES (?, ?, ?, ?)";

/// Stores an edge, keeping one already stored.
pub const INSERT_EDGE: &'static str = "INSERT OR IGNORE INTO edges (from_id, to_id, relation_type) VALUES (?, ?, ?)";

/// Deletes one event.
pub const DELETE_EVENT: &'static str = "DELETE FROM events WHERE id = ?";

/// Deleting everything keeps the pinned events.
pub const DELETE_UNPINNED_EVENTS: &'static str = "DELETE FROM events WHERE pinned = 0";

/// How many events have a content hash.
pub const COUNT_EVENTS_WITH_HASH: &'static str = "SELECT COUNT(*) FROM events WHERE content_hash = ?";

/// How many blobs have a content hash.
pub const COUNT_BLOBS_WITH_HASH: &'static str = "SELECT COUNT(*) FROM blobs WHERE content_hash = ?";

/// The MIME type and bytes of a blob.
pub const SELECT_BLOB: &'static str = "SELECT mime, data FROM blobs WHERE content_hash = ?";

/// Pins one event.
pub const PIN_EVENT: &'static str = "UPDATE events SET pinned = 1 WHERE id = ?";

/// Unpins one event.
pub const UNPIN_EVENT: &'static str = "UPDATE events SET pinned = 0 WHERE id = ?";

/// Drops every table of the application.
pub const DROP_TABLES: &'static str = "DROP TABLE IF EXISTS events; DROP TABLE IF EXISTS blobs; DROP TABLE IF EXISTS edges; DROP TABLE IF EXISTS metadata;";

/// The events table and its indexes.
pub const EVENTS_SCHEMA: &'static str = "CREATE TABLE IF NOT EXISTS events (id TEXT PRIMARY KEY, timestamp INTEGER NOT NULL, source TEXT NOT NULL, payload_type TEXT NOT NULL, payload_data TEXT NOT NULL, window_title TEXT, source_app TEXT, content_hash TEXT, pinned INTEGER DEFAULT 0, created_at INTEGER NOT NULL, classification TEXT); CREATE INDEX IF NOT EXISTS idx_events_timestamp ON events(timestamp DESC); CREATE INDEX IF NOT EXISTS idx_events_payload_type ON events(payload_type); CREATE INDEX IF NOT EXISTS idx_events_source ON events(source); CREATE INDEX IF NOT EXISTS idx_events_content_hash ON events(content_hash); CREATE INDEX IF NOT EXISTS idx_events_pinned ON events(pinned); CREATE INDEX IF NOT EXISTS idx_events_source_app ON events(source_app);";

/// Binary blobs (images) referenced by content hash.
pub const BLOBS_SCHEMA: &'static str = "CREATE TABLE IF NOT EXISTS blobs (content_hash TEXT PRIMARY KEY, mime TEXT NOT NULL, data BLOB NOT NULL, created_at INTEGER NOT NULL); CREATE INDEX IF NOT EXISTS idx_blobs_content_hash ON blobs(content_hash);";

/// Graph relationships between events.
pub const EDGES_SCHEMA: &'static str = "CREATE TABLE IF NOT EXISTS edges (from_id TEXT NOT NULL, to_id TEXT NOT NULL, relation_type TEXT NOT NULL, PRIMARY KEY (from_id, to_id, relation_type), FOREIGN KEY (from_id) REFERENCES events(id) ON DELETE CASCADE, FOREIGN KEY (to_id) REFERENCES events(id) ON DELETE CASCADE); CREATE INDEX IF NOT EXISTS idx_edges_from ON edges(from_id); CREATE INDEX IF NOT EXISTS idx_edges_to ON edges(to_id); CREATE INDEX IF NOT EXISTS idx_edges_type ON edges(relation_type);";

/// Key-value state of the application.
pub const METADATA_SCHEMA: &'static str = "CREATE TABLE IF NOT EXISTS metadata (key TEXT PRIMARY KEY, value TEXT NOT NULL, updated_at INTEGER NOT NULL);";

/// The decimal representation of an `i32`, with a `-` before a negative one.
pub open spec fn i32_decimal(n: i32) -> Seq<char> {
    if n < 0 {
        seq!['-'] + decimal((-(n as int)) as nat)
    } else {
        decimal(n as nat)
    }
}

/// The settings applied when the database is opened: write-ahead logging
/// with normal synchronisation where WAL is on, then the cache size.
pub open spec fn open_pragmas(enable_wal: bool, cache_size: i32) -> Seq<char> {
    (if enable_wal {
        WAL_PRAGMAS@
    } else {
        Seq::empty()
    }) + "PRAGMA cache_size = "@ + i32_decimal(cache_size) + ";"@
}

/// Write-ahead logging with normal synchronisation.
pub const WAL_PRAGMAS: &'static str = "PRAGMA journal_mode = WAL; PRAGMA synchronous = NORMAL; ";

/// The settings to apply when opening the database with `config`.
pub fn connection_pragmas(config: &StorageConfig) -> (r: String)
    ensures
        r@ == open_pragmas(config.enable_wal, config.cache_size),
{
    let mut out: Vec<char> = Vec::new();
    if config.enable_wal {
        push_str_chars(&mut out, WAL_PRAGMAS);
    }
    push_str_chars(&mut out, "PRAGMA cache_size = ");
    let n = config.cache_size;
    if n < 0 {
        out.push('-');
        let mag: u64 = if n == i32::MIN {
            2147483648
        } else {
            (-n) as u64
        };
        let ds = decimal_chars(mag);
        let mut i: usize = 0;
        let ghost b = out@;
        while i < ds.len()
            invariant
                i <= ds@.len(),
                out@ == b + ds@.take(i as int),
            decreases ds@.len() - i,
        {
            out.push(ds[i]);
            i = i + 1;
            assert(out@ =~= b + ds@.take(i as int));
        }
        assert(ds@.take(ds@.len() as int) =~= ds@);
        proof {
            reveal_strlit("-");
        }
    } else {
        let ds = decimal_chars(n as u64);
        let mut i: usize = 0;
        let ghost b = out@;
        while i < ds.len()
            invariant
                i <= ds@.len(),
                out@ == b + ds@.take(i as int),
            decreases ds@.len() - i,
        {
            out.push(ds[i]);
            i = i + 1;
            assert(out@ =~= b + ds@.take(i as int));
        }
        assert(ds@.take(ds@.len() as int) =~= ds@);
    }
    push_str_chars(&mut out, ";");
    assert(out@ =~= open_pragmas(config.enable_wal, config.cache_size));
    string_from_chars(out.as_slice())
}

} // verus!
