//! Line tokenizer: given one line of text (without its terminator) and the
//! parser state as of the start of the line, produces the ordered scope-stack
//! operations for the line and the state as of the start of the next line.
//!
//! The tokenizer is a pure function of its inputs: the same state, line and
//! grammar always give the same operations and next state, and no other line
//! of the document is consulted. Its whole behaviour is pinned by the spec
//! function `spec_tokenize`.

use vstd::prelude::*;

use crate::grammar::EndPattern;
use crate::grammar::Grammar;
use crate::util::copy_bytes;
use crate::util::copy_indices;

verus! {

/// A scope-stack operation at a byte offset within a line: open a named
/// scope, close the innermost scope, or do nothing.
#[derive(PartialEq, Eq, Debug)]
pub enum ScopeOp {
    Push(Vec<u8>),
    Pop,
    Noop,
}

/// The mathematical value of a `ScopeOp`: the scope name as a byte sequence.
pub enum SpecOp {
    Push(Seq<u8>),
    Pop,
    Noop,
}

/// The mathematical value of one emitted operation.
pub open spec fn op_view(op: ScopeOp) -> SpecOp {
    match op {
        ScopeOp::Push(name) => SpecOp::Push(name@),
        ScopeOp::Pop => SpecOp::Pop,
        ScopeOp::Noop => SpecOp::Noop,
    }
}

/// The mathematical value of an emitted operation list.
pub open spec fn ops_view(s: Seq<(usize, ScopeOp)>) -> Seq<(int, SpecOp)> {
    s.map(|j: int, p: (usize, ScopeOp)| (p.0 as int, op_view(p.1)))
}

/// The opaque, cheap-to-copy parser state between lines: the rule indices of
/// the contexts still open at the start of a line, innermost last. Only rules
/// with a literal end pattern survive a line boundary.
#[derive(Debug)]
pub struct ParserState {
    pub open: Vec<usize>,
}

impl ParserState {
    /// The empty state: no open contexts, as at the start of a document.
    pub fn new() -> (r: ParserState)
        ensures
            r.open@ == Seq::<usize>::empty(),
    {
        ParserState { open: Vec::new() }
    }

    /// Copies the state (snapshots duplicate it by value).
    pub fn duplicate(&self) -> (r: ParserState)
        ensures
            r.open@ == self.open@,
    {
        ParserState { open: copy_indices(&self.open) }
    }
}

/// Whether a state is meaningful for a grammar: every open rule index is a
/// rule of the grammar.
pub open spec fn wf_state(open: Seq<usize>, g: Grammar) -> bool {
    forall|j: int| 0 <= j < open.len() ==> (#[trigger] open[j] as int) < g.rules@.len()
}

/// Whether the pattern's bytes occur in `line` at offset `i`.
pub open spec fn match_at(line: Seq<u8>, i: int, pat: Seq<u8>) -> bool {
    &&& 0 <= i
    &&& i + pat.len() <= line.len()
    &&& line.subrange(i, i + pat.len()) == pat
}

/// The first rule of the grammar, from index `r` on, whose (non-empty) begin
/// pattern occurs at offset `i` of the line.
pub open spec fn find_rule(g: Grammar, line: Seq<u8>, i: int, r: int) -> Option<int>
    decreases g.rules@.len() - r,
{
    if r < 0 || r >= g.rules@.len() {
        None
    } else if g.rules@[r].begin@.len() > 0 && match_at(line, i, g.rules@[r].begin@) {
        Some(r)
    } else {
        find_rule(g, line, i, r + 1)
    }
}

/// Closing operations at the end of a line: every open rule that auto-closes
/// at line end is popped, innermost first, at offset `len`.
pub open spec fn close_eol(g: Grammar, open: Seq<usize>, len: int) -> (Seq<(int, SpecOp)>, Seq<
    usize,
>)
    decreases open.len(),
{
    if open.len() > 0 && (open.last() as int) < g.rules@.len() && g.rules@[open.last() as int].end
        is LineEnd {
        let rest = close_eol(g, open.drop_last(), len);
        (seq![(len, SpecOp::Pop)].add(rest.0), rest.1)
    } else {
        (Seq::empty(), open)
    }
}

/// Clamps an offset to the line length.
pub open spec fn clip(i: int, len: int) -> int {
    if i > len {
        len
    } else {
        i
    }
}

/// One pass over the line from offset `i` on. Inside an open context only
/// that context's end is looked for; at top level the rules' begin patterns
/// are tried, earliest offset first and first-listed rule first. The line's
/// end closes every auto-closing context.
pub open spec fn scan(g: Grammar, open: Seq<usize>, line: Seq<u8>, i: int) -> (Seq<(int, SpecOp)>,
    Seq<usize>)
    decreases line.len() - i,
{
    if i < 0 || i >= line.len() {
        close_eol(g, open, line.len() as int)
    } else if open.len() > 0 {
        let r = open.last() as int;
        if r >= g.rules@.len() {
            scan(g, open, line, i + 1)
        } else {
            match g.rules@[r].end {
                EndPattern::LineEnd => scan(g, open, line, line.len() as int),
                EndPattern::Literal(e) => {
                    if e@.len() > 0 && match_at(line, i, e@) {
                        let rest = scan(g, open.drop_last(), line, i + e@.len());
                        (seq![(i + e@.len() as int, SpecOp::Pop)].add(rest.0), rest.1)
                    } else {
                        scan(g, open, line, i + 1)
                    }
                },
            }
        }
    } else {
        match find_rule(g, line, i, 0) {
            Some(r) => {
                let step: int = if g.rules@[r].begin@.len() > 0 {
                    g.rules@[r].begin@.len() as int
                } else {
                    1
                };
                let rest = scan(g, open.push(r as usize), line, clip(i + step, line.len() as int));
                (seq![(i, SpecOp::Push(g.rules@[r].scope@))].add(rest.0), rest.1)
            },
            None => scan(g, open, line, i + 1),
        }
    }
}

/// What `tokenize` computes: scan the line if the incoming state fits the
/// grammar; otherwise degrade to a single no-op covering the whole line and
/// leave the state unchanged.
pub open spec fn spec_tokenize(g: Grammar, open: Seq<usize>, line: Seq<u8>) -> (Seq<(int, SpecOp)>,
    Seq<usize>) {
    if wf_state(open, g) {
        scan(g, open, line, 0)
    } else {
        (seq![(0int, SpecOp::Noop)], open)
    }
}

/// Facts about a successful rule lookup: the found index is a rule of the
/// grammar, its begin pattern is non-empty and occurs at offset `i`.
pub proof fn lemma_find_rule_some(g: Grammar, line: Seq<u8>, i: int, r: int, k: int)
    requires
        find_rule(g, line, i, r) == Some(k),
    ensures
        r <= k < g.rules@.len(),
        g.rules@[k].begin@.len() > 0,
        match_at(line, i, g.rules@[k].begin@),
    decreases g.rules@.len() - r,
{
    if r < 0 || r >= g.rules@.len() {
    } else if g.rules@[r].begin@.len() > 0 && match_at(line, i, g.rules@[r].begin@) {
    } else {
        lemma_find_rule_some(g, line, i, r + 1, k);
    }
}

/// Whether every offset in `ops` lies in `[lo, len]` and offsets never
/// decrease.
pub open spec fn ops_ok(ops: Seq<(int, SpecOp)>, lo: int, len: int) -> bool {
    &&& forall|k: int| 0 <= k < ops.len() ==> lo <= (#[trigger] ops[k]).0 <= len
    &&& forall|k1: int, k2: int|
        0 <= k1 <= k2 < ops.len() ==> (#[trigger] ops[k1]).0 <= (#[trigger] ops[k2]).0
}

/// A single operation in front of a well-ordered tail keeps the list well
/// ordered when its offset is between `lo` and the tail's lower bound.
proof fn lemma_ops_ok_cons(h: (int, SpecOp), tail: Seq<(int, SpecOp)>, lo: int, len: int)
    requires
        lo <= h.0 <= len,
        ops_ok(tail, h.0, len),
    ensures
        ops_ok(seq![h].add(tail), lo, len),
{
    let whole = seq![h].add(tail);
    assert(forall|k: int| 1 <= k < whole.len() ==> (#[trigger] whole[k]) == tail[k - 1]);
    assert(whole[0] == h);
}

proof fn lemma_close_eol_ops_ok(g: Grammar, open: Seq<usize>, len: int, lo: int)
    requires
        lo <= len,
    ensures
        ops_ok(close_eol(g, open, len).0, lo, len),
        forall|k: int|
            0 <= k < close_eol(g, open, len).0.len() ==> (#[trigger] close_eol(g, open, len).0[k]).0
                == len,
    decreases open.len(),
{
    if open.len() > 0 && (open.last() as int) < g.rules@.len() && g.rules@[open.last() as int].end
        is LineEnd {
        lemma_close_eol_ops_ok(g, open.drop_last(), len, lo);
        let rest = close_eol(g, open.drop_last(), len);
        let whole = seq![(len, SpecOp::Pop)].add(rest.0);
        assert(forall|k: int| 1 <= k < whole.len() ==> (#[trigger] whole[k]) == rest.0[k - 1]);
        assert(whole[0] == (len, SpecOp::Pop));
    }
}

/// The operations that `scan` emits from offset `i` on lie within
/// `[i, line.len()]` and never decrease.
pub proof fn lemma_scan_ops_ok(g: Grammar, open: Seq<usize>, line: Seq<u8>, i: int)
    requires
        0 <= i <= line.len(),
    ensures
        ops_ok(scan(g, open, line, i).0, i, line.len() as int),
    decreases line.len() - i,
{
    if i >= line.len() {
        lemma_close_eol_ops_ok(g, open, line.len() as int, i);
    } else if open.len() > 0 {
        let r = open.last() as int;
        if r >= g.rules@.len() {
            lemma_scan_ops_ok(g, open, line, i + 1);
        } else {
            match g.rules@[r].end {
                EndPattern::LineEnd => {
                    lemma_scan_ops_ok(g, open, line, line.len() as int);
                },
                EndPattern::Literal(e) => {
                    if e@.len() > 0 && match_at(line, i, e@) {
                        lemma_scan_ops_ok(g, open.drop_last(), line, i + e@.len());
                        lemma_ops_ok_cons(
                            (i + e@.len() as int, SpecOp::Pop),
                            scan(g, open.drop_last(), line, i + e@.len()).0,
                            i,
                            line.len() as int,
                        );
                    } else {
                        lemma_scan_ops_ok(g, open, line, i + 1);
                    }
                },
            }
        }
    } else {
        match find_rule(g, line, i, 0) {
            Some(r) => {
                lemma_find_rule_some(g, line, i, 0, r);
                let step: int = g.rules@[r].begin@.len() as int;
                let ni = clip(i + step, line.len() as int);
                lemma_scan_ops_ok(g, open.push(r as usize), line, ni);
                assert(ops_ok(scan(g, open.push(r as usize), line, ni).0, i, line.len() as int));
                lemma_ops_ok_cons(
                    (i, SpecOp::Push(g.rules@[r].scope@)),
                    scan(g, open.push(r as usize), line, ni).0,
                    i,
                    line.len() as int,
                );
            },
            None => {
                lemma_scan_ops_ok(g, open, line, i + 1);
            },
        }
    }
}

/// The operations that `tokenize` emits lie within the line and their offsets
/// never decrease.
pub proof fn lemma_tokenize_ops_ok(g: Grammar, open: Seq<usize>, line: Seq<u8>)
    ensures
        ops_ok(spec_tokenize(g, open, line).0, 0, line.len() as int),
{
    if wf_state(open, g) {
        lemma_scan_ops_ok(g, open, line, 0);
    }
}

/// Tokenizing is deterministic: any two results that satisfy `tokenize`'s
/// contract for the same state, line and grammar are the same result. The
/// tokenizer is a pure function of exactly these three inputs; no other line
/// of the document takes part.
pub proof fn lemma_tokenize_deterministic(
    g: Grammar,
    open: Seq<usize>,
    line: Seq<u8>,
    r1: (Seq<(int, SpecOp)>, Seq<usize>),
    r2: (Seq<(int, SpecOp)>, Seq<usize>),
)
    requires
        r1 == spec_tokenize(g, open, line),
        r2 == spec_tokenize(g, open, line),
    ensures
        r1 == r2,
{
}

/// Whether the bytes of `pat` occur in `line` at offset `i`, checked bytewise.
fn match_here(line: &Vec<u8>, i: usize, pat: &Vec<u8>) -> (b: bool)
    requires
        i <= line@.len(),
        pat@.len() <= line@.len() - i,
    ensures
        b == match_at(line@, i as int, pat@),
{
    let n: usize = line.len();
    let mut j: usize = 0;
    while j < pat.len()
        invariant
            j <= pat@.len(),
            i <= line@.len(),
            n == line@.len(),
            pat@.len() <= line@.len() - i,
            forall|k: int| 0 <= k < j ==> line@[i + k] == pat@[k],
        decreases pat@.len() - j,
    {
        proof {
            assert(i + j < n);
        }
        if line[i + j] != pat[j] {
            proof {
                assert(line@.subrange(i as int, i + pat@.len())[j as int] == line@[i + j]);
            }
            return false;
        }
        j = j + 1;
    }
    proof {
        assert(line@.subrange(i as int, i + pat@.len()) =~= pat@);
    }
    true
}

/// The first rule whose begin pattern occurs at offset `i`, if any.
fn find_rule_at(g: &Grammar, line: &Vec<u8>, i: usize) -> (r: Option<usize>)
    requires
        i <= line@.len(),
    ensures
        match r {
            Some(k) => find_rule(*g, line@, i as int, 0) == Some(k as int),
            None => find_rule(*g, line@, i as int, 0) is None,
        },
{
    let mut j: usize = 0;
    while j < g.rules.len()
        invariant
            j <= g.rules@.len(),
            i <= line@.len(),
            find_rule(*g, line@, i as int, 0) == find_rule(*g, line@, i as int, j as int),
        decreases g.rules@.len() - j,
    {
        let begin = &g.rules[j].begin;
        if begin.len() > 0 && begin.len() <= line.len() - i && match_here(line, i, begin) {
            return Some(j);
        }
        j = j + 1;
        proof {
            assert(find_rule(*g, line@, i as int, j - 1) == find_rule(*g, line@, i as int, j as int));
        }
    }
    None
}

/// Whether the innermost open context is a rule that auto-closes at line end.
fn top_is_line_end(open: &Vec<usize>, g: &Grammar) -> (b: bool)
    requires
        wf_state(open@, *g),
    ensures
        b == (open@.len() > 0 && g.rules@[open@.last() as int].end is LineEnd),
{
    if open.len() == 0 {
        return false;
    }
    let r = open[open.len() - 1];
    match &g.rules[r].end {
        EndPattern::LineEnd => true,
        EndPattern::Literal(_) => false,
    }
}

/// Tokenizes one line: returns the scope-stack operations for the line,
/// ordered by non-decreasing byte offset within `0..=line.len()`, and the
/// parser state as of the start of the next line. Pure in its inputs; a
/// state that does not fit the grammar degrades to a single no-op covering
/// the whole line, with the state unchanged.
pub fn tokenize(state: &ParserState, line: &Vec<u8>, grammar: &Grammar) -> (r: (
    Vec<(usize, ScopeOp)>,
    ParserState,
))
    ensures
        ops_view(r.0@) == spec_tokenize(*grammar, state.open@, line@).0,
        r.1.open@ == spec_tokenize(*grammar, state.open@, line@).1,
{
    let ghost g = *grammar;
    let ghost open0 = state.open@;

    let mut k: usize = 0;
    let mut ok: bool = true;
    while k < state.open.len()
        invariant
            k <= state.open@.len(),
            ok == (forall|j: int|
                0 <= j < k ==> (#[trigger] state.open@[j] as int) < g.rules@.len()),
            g == *grammar,
        decreases state.open@.len() - k,
    {
        if state.open[k] >= grammar.rules.len() {
            ok = false;
        }
        k = k + 1;
    }
    if !ok {
        let mut ops: Vec<(usize, ScopeOp)> = Vec::new();
        ops.push((0, ScopeOp::Noop));
        proof {
            assert(!wf_state(open0, g));
            assert(ops_view(ops@) =~= seq![(0int, SpecOp::Noop)]);
        }
        return (ops, state.duplicate());
    }
    proof {
        assert(wf_state(open0, g));
    }

    let mut open: Vec<usize> = copy_indices(&state.open);
    let mut ops: Vec<(usize, ScopeOp)> = Vec::new();
    let mut i: usize = 0;
    while i < line.len()
        invariant
            i <= line@.len(),
            g == *grammar,
            wf_state(open@, g),
            scan(g, open0, line@, 0).0 == ops_view(ops@).add(scan(g, open@, line@, i as int).0),
            scan(g, open0, line@, 0).1 == scan(g, open@, line@, i as int).1,
        decreases line@.len() - i,
    {
        let ghost pre_open = open@;
        let ghost pre_ops = ops@;
        let ghost pre_i = i as int;
        if open.len() > 0 {
            let r = open[open.len() - 1];
            proof {
                assert(open@.last() == open@[open@.len() - 1]);
            }
            match &grammar.rules[r].end {
                EndPattern::LineEnd => {
                    i = line.len();
                    proof {
                        assert(scan(g, pre_open, line@, pre_i) == scan(
                            g,
                            open@,
                            line@,
                            line@.len() as int,
                        ));
                    }
                },
                EndPattern::Literal(e) => {
                    if e.len() > 0 && e.len() <= line.len() - i && match_here(line, i, e) {
                        let off = i + e.len();
                        ops.push((off, ScopeOp::Pop));
                        open.truncate(open.len() - 1);
                        i = off;
                        proof {
                            assert(open@ =~= pre_open.drop_last());
                            let head = seq![(pre_i + e@.len() as int, SpecOp::Pop)];
                            assert(scan(g, pre_open, line@, pre_i).0 == head.add(
                                scan(g, open@, line@, i as int).0,
                            ));
                            assert(scan(g, pre_open, line@, pre_i).1 == scan(
                                g,
                                open@,
                                line@,
                                i as int,
                            ).1);
                            assert(ops_view(ops@) =~= ops_view(pre_ops).add(head));
                            assert(ops_view(pre_ops).add(head).add(
                                scan(g, open@, line@, i as int).0,
                            ) =~= ops_view(pre_ops).add(
                                head.add(scan(g, open@, line@, i as int).0),
                            ));
                        }
                    } else {
                        i = i + 1;
                        proof {
                            assert(!(e@.len() > 0 && match_at(line@, pre_i, e@)));
                            assert(scan(g, pre_open, line@, pre_i) == scan(
                                g,
                                open@,
                                line@,
                                i as int,
                            ));
                        }
                    }
                },
            }
        } else {
            match find_rule_at(grammar, line, i) {
                Some(r) => {
                    proof {
                        lemma_find_rule_some(g, line@, i as int, 0, r as int);
                    }
                    let scope = copy_bytes(&grammar.rules[r].scope);
                    ops.push((i, ScopeOp::Push(scope)));
                    open.push(r);
                    let step = grammar.rules[r].begin.len();
                    i = i + step;
                    proof {
                        assert(open@ =~= pre_open.push(r as usize));
                        assert(clip(pre_i + step as int, line@.len() as int) == i as int);
                        let head = seq![(pre_i, SpecOp::Push(g.rules@[r as int].scope@))];
                        assert(scan(g, pre_open, line@, pre_i).0 == head.add(
                            scan(g, open@, line@, i as int).0,
                        ));
                        assert(scan(g, pre_open, line@, pre_i).1 == scan(
                            g,
                            open@,
                            line@,
                            i as int,
                        ).1);
                        assert(ops_view(ops@) =~= ops_view(pre_ops).add(head));
                        assert(ops_view(pre_ops).add(head).add(scan(g, open@, line@, i as int).0)
                            =~= ops_view(pre_ops).add(head.add(scan(g, open@, line@, i as int).0)));
                    }
                },
                None => {
                    i = i + 1;
                    proof {
                        assert(scan(g, pre_open, line@, pre_i) == scan(g, open@, line@, i as int));
                    }
                },
            }
        }
    }

    proof {
        assert(scan(g, open@, line@, i as int) == close_eol(g, open@, line@.len() as int));
    }
    while top_is_line_end(&open, grammar)
        invariant
            g == *grammar,
            wf_state(open@, g),
            scan(g, open0, line@, 0).0 == ops_view(ops@).add(
                close_eol(g, open@, line@.len() as int).0,
            ),
            scan(g, open0, line@, 0).1 == close_eol(g, open@, line@.len() as int).1,
        decreases open@.len(),
    {
        let ghost pre_open = open@;
        let ghost pre_ops = ops@;
        ops.push((line.len(), ScopeOp::Pop));
        open.truncate(open.len() - 1);
        proof {
            assert(open@ =~= pre_open.drop_last());
            let head = seq![(line@.len() as int, SpecOp::Pop)];
            assert(close_eol(g, pre_open, line@.len() as int).0 == head.add(
                close_eol(g, open@, line@.len() as int).0,
            ));
            assert(close_eol(g, pre_open, line@.len() as int).1 == close_eol(
                g,
                open@,
                line@.len() as int,
            ).1);
            assert(ops_view(ops@) =~= ops_view(pre_ops).add(head));
            assert(ops_view(pre_ops).add(head).add(close_eol(g, open@, line@.len() as int).0) =~=
                ops_view(pre_ops).add(head.add(close_eol(g, open@, line@.len() as int).0)));
        }
    }
    proof {
        assert(close_eol(g, open@, line@.len() as int).0 =~= Seq::<(int, SpecOp)>::empty());
        assert(close_eol(g, open@, line@.len() as int).1 == open@);
        assert(ops_view(ops@).add(Seq::<(int, SpecOp)>::empty()) =~= ops_view(ops@));
    }
    (ops, ParserState { open })
}

} // verus!
