use vstd::prelude::*;

use crate::error::Error;
use crate::language::Language;
use crate::node::{node_eq, Node};
use crate::text::str_eq;

verus! {

/// Whitespace as the pattern grammar knows it.
pub open spec fn is_ws(c: char) -> bool {
    c == ' ' || c == '\t' || c == '\n' || c == '\r'
}

/// Characters that may open an identifier: letters and the underscore.
pub open spec fn is_ident_start(c: char) -> bool {
    ('a' <= c && c <= 'z') || ('A' <= c && c <= 'Z') || c == '_'
}

/// Characters that may continue an identifier: letters, digits, underscore.
pub open spec fn is_ident_char(c: char) -> bool {
    is_ident_start(c) || ('0' <= c && c <= '9')
}

/// The first position at or after `i` holding no whitespace.
pub open spec fn skip_ws(s: Seq<char>, i: int) -> int
    decreases s.len() - i,
{
    if 0 <= i < s.len() && is_ws(s[i]) {
        skip_ws(s, i + 1)
    } else {
        i
    }
}

/// The first position at or after `i` past any identifier characters.
pub open spec fn scan_ident_end(s: Seq<char>, i: int) -> int
    decreases s.len() - i,
{
    if 0 <= i < s.len() && is_ident_char(s[i]) {
        scan_ident_end(s, i + 1)
    } else {
        i
    }
}

/// Skipping whitespace moves forward and stays inside the text.
pub proof fn lemma_skip_ws_bounds(s: Seq<char>, i: int)
    requires
        0 <= i <= s.len(),
    ensures
        i <= skip_ws(s, i) <= s.len(),
    decreases s.len() - i,
{
    if i < s.len() && is_ws(s[i]) {
        lemma_skip_ws_bounds(s, i + 1);
    }
}

/// Scanning an identifier moves forward and stays inside the text.
pub proof fn lemma_scan_ident_end_bounds(s: Seq<char>, i: int)
    requires
        0 <= i <= s.len(),
    ensures
        i <= scan_ident_end(s, i) <= s.len(),
    decreases s.len() - i,
{
    if i < s.len() && is_ident_char(s[i]) {
        lemma_scan_ident_end_bounds(s, i + 1);
    }
}

/// What pattern text means, parsed from position `i`: a sequence of
/// (node kind, capture name) pairs, or the offset of the first offending
/// character together with the reason. The grammar is a sequence of patterns,
/// each `(kind) @capture`, separated by whitespace.
pub open spec fn parse_patterns(s: Seq<char>, i: int) -> Result<
    Seq<(Seq<char>, Seq<char>)>,
    (int, Seq<char>),
>
    decreases s.len() - i
        when 0 <= i <= s.len()
        via parse_patterns_decreases
{
    let j = skip_ws(s, i);
    if j >= s.len() {
        Ok(Seq::<(Seq<char>, Seq<char>)>::empty())
    } else if s[j] != '(' {
        Err((j, "expected '('"@))
    } else if !(j + 1 < s.len() && is_ident_start(s[j + 1])) {
        Err((j + 1, "expected node kind"@))
    } else {
        let ke = scan_ident_end(s, j + 2);
        if !(ke < s.len() && s[ke] == ')') {
            Err((ke, "expected ')'"@))
        } else {
            let a = skip_ws(s, ke + 1);
            if !(a < s.len() && s[a] == '@') {
                Err((a, "expected '@'"@))
            } else if !(a + 1 < s.len() && is_ident_start(s[a + 1])) {
                Err((a + 1, "expected capture name"@))
            } else {
                let ce = scan_ident_end(s, a + 2);
                match parse_patterns(s, ce) {
                    Ok(rest) => Ok(
                        seq![(s.subrange(j + 1, ke), s.subrange(a + 1, ce))] + rest,
                    ),
                    Err(e) => Err(e),
                }
            }
        }
    }
}

#[via_fn]
proof fn parse_patterns_decreases(s: Seq<char>, i: int) {
    lemma_skip_ws_bounds(s, i);
    let j = skip_ws(s, i);
    if j + 1 < s.len() {
        lemma_scan_ident_end_bounds(s, j + 2);
        let ke = scan_ident_end(s, j + 2);
        if ke < s.len() {
            lemma_skip_ws_bounds(s, ke + 1);
            let a = skip_ws(s, ke + 1);
            if a + 1 < s.len() {
                lemma_scan_ident_end_bounds(s, a + 2);
            }
        }
    }
}

fn is_ws_exec(c: char) -> (r: bool)
    ensures
        r == is_ws(c),
{
    c == ' ' || c == '\t' || c == '\n' || c == '\r'
}

fn is_ident_start_exec(c: char) -> (r: bool)
    ensures
        r == is_ident_start(c),
{
    ('a' <= c && c <= 'z') || ('A' <= c && c <= 'Z') || c == '_'
}

fn is_ident_char_exec(c: char) -> (r: bool)
    ensures
        r == is_ident_char(c),
{
    is_ident_start_exec(c) || ('0' <= c && c <= '9')
}

fn skip_ws_exec(s: &str, from: usize) -> (r: usize)
    requires
        from as int <= s@.len(),
    ensures
        r as int == skip_ws(s@, from as int),
        from <= r,
        r as int <= s@.len(),
{
    let n = s.unicode_len();
    let mut i = from;
    while i < n && is_ws_exec(s.get_char(i))
        invariant
            from <= i <= n,
            n == s@.len(),
            skip_ws(s@, from as int) == skip_ws(s@, i as int),
        decreases n - i,
    {
        i += 1;
    }
    proof {
        assert(skip_ws(s@, i as int) == i as int);
    }
    i
}

fn scan_ident_end_exec(s: &str, from: usize) -> (r: usize)
    requires
        from as int <= s@.len(),
    ensures
        r as int == scan_ident_end(s@, from as int),
        from <= r,
        r as int <= s@.len(),
{
    let n = s.unicode_len();
    let mut i = from;
    while i < n && is_ident_char_exec(s.get_char(i))
        invariant
            from <= i <= n,
            n == s@.len(),
            scan_ident_end(s@, from as int) == scan_ident_end(s@, i as int),
        decreases n - i,
    {
        i += 1;
    }
    proof {
        assert(scan_ident_end(s@, i as int) == i as int);
    }
    i
}

/// One compiled pattern: the node kind it matches and its capture name.
#[derive(Debug)]
pub struct Pattern {
    pub kind: String,
    pub capture: String,
}

/// What a sequence of compiled patterns means.
pub open spec fn pattern_views(ps: Seq<Pattern>) -> Seq<(Seq<char>, Seq<char>)> {
    ps.map_values(|p: Pattern| (p.kind@, p.capture@))
}

/// A compiled, immutable pattern set bound to one grammar.
#[derive(Debug)]
pub struct Query {
    language: Language,
    patterns: Vec<Pattern>,
}

/// One match: which pattern fired, and its ordered captured nodes with their
/// capture names.
#[derive(Debug)]
pub struct QueryMatch {
    pub pattern_index: usize,
    pub captures: Vec<(String, Node)>,
}

/// The hits the patterns with index at least `from` score on one node, in
/// pattern order.
pub open spec fn pattern_hits(ps: Seq<(Seq<char>, Seq<char>)>, n: Node, from: int) -> Seq<
    (int, Node),
>
    decreases ps.len() - from,
{
    if from >= ps.len() {
        Seq::<(int, Node)>::empty()
    } else {
        (if ps[from].0 == n.kind@ {
            seq![(from, n)]
        } else {
            Seq::<(int, Node)>::empty()
        }) + pattern_hits(ps, n, from + 1)
    }
}

/// All hits over a subtree, in pre-order by node, ties at one node broken by
/// pattern declaration order.
pub open spec fn match_seq(ps: Seq<(Seq<char>, Seq<char>)>, n: Node) -> Seq<(int, Node)>
    decreases n,
{
    pattern_hits(ps, n, 0) + kids_matches(ps, n.children@)
}

/// All hits over a forest of subtrees, left to right.
pub open spec fn kids_matches(ps: Seq<(Seq<char>, Seq<char>)>, cs: Seq<Node>) -> Seq<(int, Node)>
    decreases cs,
{
    if cs.len() == 0 {
        Seq::<(int, Node)>::empty()
    } else {
        match_seq(ps, cs[0]) + kids_matches(ps, cs.drop_first())
    }
}

/// One produced row reflects one hit: the right pattern index, one capture,
/// carrying that pattern's capture name and a copy of the hit node.
pub open spec fn row_matches(
    row: QueryMatch,
    hit: (int, Node),
    ps: Seq<(Seq<char>, Seq<char>)>,
) -> bool {
    &&& row.pattern_index as int == hit.0
    &&& 0 <= hit.0 < ps.len()
    &&& row.captures@.len() == 1
    &&& row.captures@[0].0@ == ps[hit.0].1
    &&& node_eq(row.captures@[0].1, hit.1)
}

/// The produced rows reflect the hits, position for position.
pub open spec fn match_rows(
    rows: Seq<QueryMatch>,
    hits: Seq<(int, Node)>,
    ps: Seq<(Seq<char>, Seq<char>)>,
) -> bool {
    &&& rows.len() == hits.len()
    &&& forall|k: int| 0 <= k < rows.len() ==> row_matches(#[trigger] rows[k], hits[k], ps)
}

/// Row blocks concatenate as their hit blocks do.
proof fn lemma_match_rows_concat(
    a: Seq<QueryMatch>,
    b: Seq<QueryMatch>,
    h1: Seq<(int, Node)>,
    h2: Seq<(int, Node)>,
    ps: Seq<(Seq<char>, Seq<char>)>,
)
    requires
        match_rows(a, h1, ps),
        match_rows(b, h2, ps),
    ensures
        match_rows(a + b, h1 + h2, ps),
{
    assert forall|k: int| 0 <= k < (a + b).len() implies row_matches(
        #[trigger] (a + b)[k],
        (h1 + h2)[k],
        ps,
    ) by {
        if k < a.len() {
            assert((a + b)[k] == a[k]);
            assert((h1 + h2)[k] == h1[k]);
        } else {
            assert((a + b)[k] == b[k - a.len()]);
            assert((h1 + h2)[k] == h2[k - a.len()]);
        }
    }
}

impl Query {
    /// The grammar this pattern set was compiled against.
    pub closed spec fn spec_language(self) -> Language {
        self.language
    }

    /// The compiled patterns: (node kind, capture name) pairs in declaration
    /// order.
    pub closed spec fn spec_patterns(self) -> Seq<(Seq<char>, Seq<char>)> {
        pattern_views(self.patterns@)
    }

    /// Compiles pattern text against a grammar. Succeeds exactly on text the
    /// pattern grammar admits; anything else fails fast with the offending
    /// offset and the reason, preserved verbatim for pattern authors.
    pub fn new(language: &Language, source: &str) -> (r: Result<Query, Error>)
        ensures
            parse_patterns(source@, 0) matches Ok(ps) ==> (r matches Ok(q) && q.spec_language()
                == *language && q.spec_patterns() == ps),
            parse_patterns(source@, 0) matches Err(e) ==> (r matches Err(err) && (
            err matches Error::QueryCompileError { offset, reason } && offset as int == e.0
                && reason@ == e.1)),
    {
        let n = source.unicode_len();
        let mut pats: Vec<Pattern> = Vec::new();
        let mut i: usize = 0;
        proof {
            assert(pattern_views(pats@) =~= Seq::<(Seq<char>, Seq<char>)>::empty());
        }
        while i < n
            invariant
                i <= n,
                n == source@.len(),
                parse_patterns(source@, 0) == (match parse_patterns(source@, i as int) {
                    Ok(rest) => Ok::<_, (int, Seq<char>)>(pattern_views(pats@) + rest),
                    Err(e) => Err::<Seq<(Seq<char>, Seq<char>)>, _>(e),
                }),
            decreases n - i,
        {
            let j = skip_ws_exec(source, i);
            if j >= n {
                proof {
                    assert(pattern_views(pats@) + Seq::<(Seq<char>, Seq<char>)>::empty()
                        =~= pattern_views(pats@));
                }
                return Ok(Query { language: *language, patterns: pats });
            }
            if source.get_char(j) != '(' {
                return Err(
                    Error::QueryCompileError {
                        offset: j as u64,
                        reason: String::from_str("expected '('"),
                    },
                );
            }
            if !(j + 1 < n && is_ident_start_exec(source.get_char(j + 1))) {
                return Err(
                    Error::QueryCompileError {
                        offset: (j + 1) as u64,
                        reason: String::from_str("expected node kind"),
                    },
                );
            }
            let ke = scan_ident_end_exec(source, j + 2);
            if !(ke < n && source.get_char(ke) == ')') {
                return Err(
                    Error::QueryCompileError {
                        offset: ke as u64,
                        reason: String::from_str("expected ')'"),
                    },
                );
            }
            let a = skip_ws_exec(source, ke + 1);
            if !(a < n && source.get_char(a) == '@') {
                return Err(
                    Error::QueryCompileError {
                        offset: a as u64,
                        reason: String::from_str("expected '@'"),
                    },
                );
            }
            if !(a + 1 < n && is_ident_start_exec(source.get_char(a + 1))) {
                return Err(
                    Error::QueryCompileError {
                        offset: (a + 1) as u64,
                        reason: String::from_str("expected capture name"),
                    },
                );
            }
            let ce = scan_ident_end_exec(source, a + 2);
            let kind = String::from_str(source.substring_char(j + 1, ke));
            let capture = String::from_str(source.substring_char(a + 1, ce));
            let ghost before = pats@;
            pats.push(Pattern { kind, capture });
            proof {
                let pat_view = (
                    source@.subrange(j as int + 1, ke as int),
                    source@.subrange(a as int + 1, ce as int),
                );
                assert(pattern_views(pats@) =~= pattern_views(before).push(pat_view));
                match parse_patterns(source@, ce as int) {
                    Ok(rest) => {
                        assert(pattern_views(before) + (seq![pat_view] + rest) =~= pattern_views(
                            pats@,
                        ) + rest);
                    },
                    Err(_) => {},
                }
            }
            i = ce;
        }
        proof {
            assert(skip_ws(source@, i as int) == i as int);
            assert(pattern_views(pats@) + Seq::<(Seq<char>, Seq<char>)>::empty() =~= pattern_views(
                pats@,
            ));
        }
        Ok(Query { language: *language, patterns: pats })
    }

    /// How many patterns this query holds.
    pub fn pattern_count(&self) -> (r: usize)
        ensures
            r == self.spec_patterns().len(),
    {
        self.patterns.len()
    }

    fn collect_into(&self, n: &Node, out: &mut Vec<QueryMatch>)
        ensures
            final(out)@.len() == old(out)@.len() + match_seq(self.spec_patterns(), *n).len(),
            forall|k: int| 0 <= k < old(out)@.len() ==> final(out)@[k] == old(out)@[k],
            match_rows(
                final(out)@.skip(old(out)@.len() as int),
                match_seq(self.spec_patterns(), *n),
                self.spec_patterns(),
            ),
        decreases *n,
    {
        let ghost ps = self.spec_patterns();
        let ghost base = old(out)@;
        let ghost mut hits_done: Seq<(int, Node)> = Seq::empty();
        let mut p: usize = 0;
        proof {
            assert(hits_done + pattern_hits(ps, *n, 0) =~= pattern_hits(ps, *n, 0));
            assert(out@.skip(base.len() as int) =~= Seq::<QueryMatch>::empty());
        }
        while p < self.patterns.len()
            invariant
                p <= self.patterns@.len(),
                ps == self.spec_patterns(),
                base.len() <= out@.len(),
                forall|k: int| 0 <= k < base.len() ==> out@[k] == base[k],
                pattern_hits(ps, *n, 0) == hits_done + pattern_hits(ps, *n, p as int),
                match_rows(out@.skip(base.len() as int), hits_done, ps),
            decreases self.patterns@.len() - p,
        {
            if str_eq(self.patterns[p].kind.as_str(), n.kind.as_str()) {
                let mut caps: Vec<(String, Node)> = Vec::new();
                caps.push((self.patterns[p].capture.clone(), n.clone()));
                let row = QueryMatch { pattern_index: p, captures: caps };
                let ghost seg_before = out@.skip(base.len() as int);
                out.push(row);
                proof {
                    assert(ps[p as int] == (
                        self.patterns@[p as int].kind@,
                        self.patterns@[p as int].capture@,
                    ));
                    assert(pattern_hits(ps, *n, p as int) == seq![(p as int, *n)] + pattern_hits(
                        ps,
                        *n,
                        p as int + 1,
                    ));
                    assert(out@.skip(base.len() as int) =~= seg_before.push(row));
                    assert(seg_before.push(row) =~= seg_before + seq![row]);
                    lemma_match_rows_concat(
                        seg_before,
                        seq![row],
                        hits_done,
                        seq![(p as int, *n)],
                        ps,
                    );
                    assert((hits_done + seq![(p as int, *n)]) + pattern_hits(ps, *n, p as int + 1)
                        =~= hits_done + pattern_hits(ps, *n, p as int));
                    hits_done = hits_done + seq![(p as int, *n)];
                }
            } else {
                proof {
                    assert(ps[p as int] == (
                        self.patterns@[p as int].kind@,
                        self.patterns@[p as int].capture@,
                    ));
                    assert(pattern_hits(ps, *n, p as int) == pattern_hits(ps, *n, p as int + 1));
                }
            }
            p += 1;
        }
        proof {
            assert(pattern_hits(ps, *n, p as int) =~= Seq::<(int, Node)>::empty());
            assert(hits_done + Seq::<(int, Node)>::empty() =~= hits_done);
            assert(hits_done =~= pattern_hits(ps, *n, 0));
            assert(n.children@.skip(0) =~= n.children@);
        }
        let mut c: usize = 0;
        while c < n.child_count()
            invariant
                c <= n.children@.len(),
                ps == self.spec_patterns(),
                base.len() <= out@.len(),
                forall|k: int| 0 <= k < base.len() ==> out@[k] == base[k],
                pattern_hits(ps, *n, 0) + kids_matches(ps, n.children@) == hits_done
                    + kids_matches(ps, n.children@.skip(c as int)),
                match_rows(out@.skip(base.len() as int), hits_done, ps),
            decreases n.children@.len() - c,
        {
            let ghost seg_before = out@.skip(base.len() as int);
            let ghost len_before = out@.len();
            proof {
                assert(decreases_to!(*n => n.children@[c as int]));
            }
            self.collect_into(&n.children[c], out);
            proof {
                let cs = n.children@;
                let child_hits = match_seq(ps, cs[c as int]);
                assert(cs.skip(c as int)[0] == cs[c as int]);
                assert(cs.skip(c as int).drop_first() =~= cs.skip(c as int + 1));
                assert(kids_matches(ps, cs.skip(c as int)) == child_hits + kids_matches(
                    ps,
                    cs.skip(c as int + 1),
                ));
                assert(out@.skip(base.len() as int) =~= seg_before + out@.skip(
                    len_before as int,
                ));
                lemma_match_rows_concat(
                    seg_before,
                    out@.skip(len_before as int),
                    hits_done,
                    child_hits,
                    ps,
                );
                assert((hits_done + child_hits) + kids_matches(ps, cs.skip(c as int + 1))
                    =~= hits_done + kids_matches(ps, cs.skip(c as int)));
                hits_done = hits_done + child_hits;
            }
            c += 1;
        }
        proof {
            assert(n.children@.skip(n.children@.len() as int) =~= Seq::<Node>::empty());
            assert(kids_matches(ps, Seq::<Node>::empty()) =~= Seq::<(int, Node)>::empty());
            assert(hits_done + Seq::<(int, Node)>::empty() =~= hits_done);
            assert(hits_done =~= match_seq(ps, *n));
        }
    }

    /// All matches of this pattern set over the subtree rooted at the given
    /// node, in pre-order by node, ties at one node broken by pattern
    /// declaration order (lower index first). The whole sequence is produced
    /// at once; it is finite and consuming it does not disturb the query.
    pub fn matches(&self, node: &Node) -> (r: Vec<QueryMatch>)
        ensures
            match_rows(r@, match_seq(self.spec_patterns(), *node), self.spec_patterns()),
    {
        let mut out: Vec<QueryMatch> = Vec::new();
        self.collect_into(node, &mut out);
        proof {
            assert(out@.skip(0) =~= out@);
        }
        out
    }

    /// The flattened view of `matches`: one row per capture, paired with the
    /// capture's position within its match. Every match here carries exactly
    /// one capture, so the paired position is the first.
    pub fn captures(&self, node: &Node) -> (r: Vec<(QueryMatch, usize)>)
        ensures
            r@.len() == match_seq(self.spec_patterns(), *node).len(),
            forall|k: int|
                0 <= k < r@.len() ==> row_matches(
                    (#[trigger] r@[k]).0,
                    match_seq(self.spec_patterns(), *node)[k],
                    self.spec_patterns(),
                ) && r@[k].1 == 0,
    {
        let mut ms = self.matches(node);
        let ghost orig = ms@;
        let mut r: Vec<(QueryMatch, usize)> = Vec::new();
        while ms.len() > 0
            invariant
                r@.len() + ms@.len() == orig.len(),
                forall|k: int| 0 <= k < r@.len() ==> (#[trigger] r@[k]).0 == orig[k] && r@[k].1
                    == 0,
                forall|k: int| 0 <= k < ms@.len() ==> #[trigger] ms@[k] == orig[r@.len() + k],
            decreases ms@.len(),
        {
            let m = ms.remove(0);
            r.push((m, 0));
        }
        r
    }
}

/// Query matching is deterministic and stable: two result sets produced for
/// the same tree and the same query agree row for row — same pattern index,
/// same capture name, structurally equal captured nodes.
pub proof fn lemma_matches_deterministic(
    q: Query,
    n: Node,
    r1: Seq<QueryMatch>,
    r2: Seq<QueryMatch>,
)
    requires
        match_rows(r1, match_seq(q.spec_patterns(), n), q.spec_patterns()),
        match_rows(r2, match_seq(q.spec_patterns(), n), q.spec_patterns()),
    ensures
        r1.len() == r2.len(),
        forall|k: int|
            0 <= k < r1.len() ==> (#[trigger] r1[k]).pattern_index == r2[k].pattern_index
                && r1[k].captures@.len() == 1 && r2[k].captures@.len() == 1
                && r1[k].captures@[0].0@ == r2[k].captures@[0].0@ && node_eq(
                r1[k].captures@[0].1,
                r2[k].captures@[0].1,
            ),
{
    let hits = match_seq(q.spec_patterns(), n);
    assert forall|k: int| 0 <= k < r1.len() implies (#[trigger] r1[k]).pattern_index
        == r2[k].pattern_index && r1[k].captures@.len() == 1 && r2[k].captures@.len() == 1
        && r1[k].captures@[0].0@ == r2[k].captures@[0].0@ && node_eq(
        r1[k].captures@[0].1,
        r2[k].captures@[0].1,
    ) by {
        assert(row_matches(r1[k], hits[k], q.spec_patterns()));
        assert(row_matches(r2[k], hits[k], q.spec_patterns()));
        crate::node::lemma_node_eq_joint(r1[k].captures@[0].1, r2[k].captures@[0].1, hits[k].1);
    }
}

} // verus!
