//! Highlight stream producer: the public face of the engine. Given lines in
//! increasing order after a `seek`, it tokenizes each line from the parser
//! state reached so far, resolves the operations into styled ranges, and
//! keeps a snapshot cache of checkpoints at fixed line strides so a pass can
//! restart near any line.
//!
//! The producer's state is always the state that sequential highlighting
//! from line 0 of the fed lines would reach: snapshots are a pure
//! performance optimization, never an observable behaviour change
//! (`lemma_cache_equivalence`).

use vstd::prelude::*;
use vstd::arithmetic::div_mod::lemma_div_is_ordered;
use vstd::arithmetic::div_mod::lemma_div_pos_is_pos;
use vstd::arithmetic::div_mod::lemma_fundamental_div_mod;
use vstd::arithmetic::div_mod::lemma_fundamental_div_mod_converse;
use vstd::arithmetic::div_mod::lemma_mod_bound;

use crate::cache::LINES_PER_SNAPSHOT;
use crate::cache::Snapshot;
use crate::cache::SnapshotCache;
use crate::cache::empty_snap;
use crate::cache::invalidate_keep;
use crate::grammar::Grammar;
use crate::grammar::GrammarStore;
use crate::grammar::Style;
use crate::grammar::Theme;
use crate::grammar::ThemeNotFoundError;
use crate::grammar::find_key;
use crate::grammar::grammar_like;
use crate::grammar::theme_like;
use crate::resolver::ScopeStack;
use crate::resolver::apply_ops;
use crate::resolver::lemma_resolve_partitions;
use crate::resolver::ranges_partition;
use crate::resolver::ranges_view;
use crate::resolver::resolve;
use crate::resolver::spec_resolve;
use crate::tokenizer::ParserState;
use crate::tokenizer::lemma_tokenize_ops_ok;
use crate::tokenizer::spec_tokenize;
use crate::tokenizer::tokenize;
use crate::util::copy_ranges;
use crate::util::names_view;

verus! {

/// The settings a producer is built from or updated with: the name of the
/// theme to style with, and an optional set of byte ranges reported by
/// validation. The error ranges are an overlay hook for the rendering layer;
/// they do not take part in range computation.
#[derive(Debug)]
pub struct Settings {
    pub theme: Vec<u8>,
    pub errors: Vec<(usize, usize)>,
}

/// One line step of the document fold: tokenize the line from the incoming
/// (parser state, scope stack) pair and apply the emitted operations.
pub open spec fn step_state(
    g: Grammar,
    st: (Seq<usize>, Seq<Seq<u8>>),
    line: Seq<u8>,
) -> (Seq<usize>, Seq<Seq<u8>>) {
    let t = spec_tokenize(g, st.0, line);
    (t.1, apply_ops(st.1, t.0))
}

/// The (parser state, scope stack) pair as of the start of line `n`, obtained
/// by folding the tokenizer over lines `0 .. n` from the empty state.
pub open spec fn state_at(g: Grammar, doc: Seq<Seq<u8>>, n: int) -> (Seq<usize>, Seq<Seq<u8>>)
    decreases n,
{
    if n <= 0 {
        empty_snap()
    } else {
        step_state(g, state_at(g, doc, n - 1), doc[n - 1])
    }
}

/// Folding the tokenizer over lines `m .. i` from an explicit starting pair,
/// as a pass resumed from a snapshot does.
pub open spec fn fold_from(
    g: Grammar,
    st: (Seq<usize>, Seq<Seq<u8>>),
    doc: Seq<Seq<u8>>,
    m: int,
    i: int,
) -> (Seq<usize>, Seq<Seq<u8>>)
    decreases i - m,
{
    if m >= i {
        st
    } else {
        fold_from(g, step_state(g, st, doc[m]), doc, m + 1, i)
    }
}

/// The styled ranges of line `i` when the document is highlighted
/// sequentially from line 0.
pub open spec fn highlight_of(g: Grammar, t: Theme, doc: Seq<Seq<u8>>, i: int) -> Seq<(
    int,
    int,
    Style,
)> {
    let st = state_at(g, doc, i);
    spec_resolve(st.1, spec_tokenize(g, st.0, doc[i]).0, 0, doc[i].len() as int, t)
}

/// The state as of line `n` depends only on the first `n` lines.
pub proof fn lemma_state_at_prefix(g: Grammar, doc1: Seq<Seq<u8>>, doc2: Seq<Seq<u8>>, n: int)
    requires
        forall|j: int| 0 <= j < n ==> doc1[j] == doc2[j],
    ensures
        state_at(g, doc1, n) == state_at(g, doc2, n),
    decreases n,
{
    if n > 0 {
        lemma_state_at_prefix(g, doc1, doc2, n - 1);
    }
}

proof fn lemma_fold_snoc(
    g: Grammar,
    st: (Seq<usize>, Seq<Seq<u8>>),
    doc: Seq<Seq<u8>>,
    m: int,
    i: int,
)
    requires
        m <= i,
    ensures
        fold_from(g, st, doc, m, i + 1) == step_state(g, fold_from(g, st, doc, m, i), doc[i]),
    decreases i - m,
{
    if m < i {
        lemma_fold_snoc(g, step_state(g, st, doc[m]), doc, m + 1, i);
    } else {
        assert(fold_from(g, st, doc, m, i) == st);
        assert(fold_from(g, st, doc, m, i + 1) == fold_from(
            g,
            step_state(g, st, doc[m]),
            doc,
            m + 1,
            i + 1,
        ));
        assert(fold_from(g, step_state(g, st, doc[m]), doc, m + 1, i + 1) == step_state(
            g,
            st,
            doc[m],
        ));
    }
}

/// Restarting is exact: folding the tokenizer over lines `m .. i` from the
/// checkpoint for line `m` reaches exactly the state that sequential
/// highlighting from line 0 reaches at line `i`.
pub proof fn lemma_restart_equivalence(g: Grammar, doc: Seq<Seq<u8>>, m: int, i: int)
    requires
        0 <= m <= i,
    ensures
        fold_from(g, state_at(g, doc, m), doc, m, i) == state_at(g, doc, i),
    decreases i - m,
{
    if m < i {
        lemma_restart_equivalence(g, doc, m, i - 1);
        lemma_fold_snoc(g, state_at(g, doc, m), doc, m, i - 1);
    }
}

/// Cache equivalence: highlighting line `i` after restarting from the
/// checkpoint for any earlier line `m` yields exactly the ranges of
/// highlighting sequentially from line 0. Snapshotting is a pure performance
/// optimization, not an observable behaviour change.
pub proof fn lemma_cache_equivalence(g: Grammar, t: Theme, doc: Seq<Seq<u8>>, m: int, i: int)
    requires
        0 <= m <= i < doc.len(),
    ensures
        ({
            let st = fold_from(g, state_at(g, doc, m), doc, m, i);
            spec_resolve(st.1, spec_tokenize(g, st.0, doc[i]).0, 0, doc[i].len() as int, t)
                == highlight_of(g, t, doc, i)
        }),
{
    lemma_restart_equivalence(g, doc, m, i);
}

/// Coverage: the ranges of any highlighted line partition `[0, len)` of that
/// line exactly — contiguous, non-overlapping, no gaps — whatever the
/// grammar, theme and preceding lines.
pub proof fn lemma_highlight_covers(g: Grammar, t: Theme, doc: Seq<Seq<u8>>, i: int)
    requires
        0 <= i < doc.len(),
    ensures
        ranges_partition(highlight_of(g, t, doc, i), 0, doc[i].len() as int),
{
    let st = state_at(g, doc, i);
    crate::tokenizer::lemma_tokenize_ops_ok(g, st.0, doc[i]);
    lemma_resolve_partitions(st.1, spec_tokenize(g, st.0, doc[i]).0, 0, doc[i].len() as int, t);
}

/// The ranges of every line of a whole pass over the document.
pub open spec fn pass_outputs(g: Grammar, t: Theme, doc: Seq<Seq<u8>>) -> Seq<
    Seq<(int, int, Style)>,
> {
    Seq::new(doc.len(), |i: int| highlight_of(g, t, doc, i))
}

/// Re-highlighting an unchanged document is idempotent: any two full passes
/// over the same lines with the same grammar and theme — each pass starting
/// from the empty state, as after a full invalidation — produce byte-identical
/// range and style sequences.
pub proof fn lemma_passes_identical(
    g: Grammar,
    t: Theme,
    doc: Seq<Seq<u8>>,
    first: Seq<Seq<(int, int, Style)>>,
    second: Seq<Seq<(int, int, Style)>>,
)
    requires
        first == pass_outputs(g, t, doc),
        second == pass_outputs(g, t, doc),
    ensures
        first == second,
{
}

proof fn lemma_mul_div_cancel(a: int, s: int)
    requires
        0 <= a,
        0 < s,
    ensures
        (a * s) / s == a,
        (a * s) % s == 0,
{
    lemma_fundamental_div_mod_converse(a * s, s, a, 0);
}

proof fn lemma_div_mul_le(c: int, s: int)
    requires
        0 <= c,
        0 < s,
    ensures
        (c / s) * s <= c,
        c < ((c / s) + 1) * s,
        0 <= c / s,
{
    lemma_fundamental_div_mod(c, s);
    lemma_mod_bound(c, s);
    lemma_div_pos_is_pos(c, s);
    let q = c / s;
    assert(c == s * q + (c % s));
    assert(s * q == q * s) by (nonlinear_arith);
    assert((q + 1) * s == q * s + s) by (nonlinear_arith);
}

proof fn lemma_succ_div(c: int, s: int)
    requires
        0 <= c,
        0 < s,
    ensures
        c % s == s - 1 ==> (c + 1) / s == c / s + 1 && (c + 1) % s == 0,
        c % s != s - 1 ==> (c + 1) / s == c / s && (c + 1) % s == c % s + 1,
{
    lemma_fundamental_div_mod(c, s);
    lemma_mod_bound(c, s);
    let q = c / s;
    let r = c % s;
    assert(c == s * q + r);
    assert(s * q == q * s) by (nonlinear_arith);
    assert((q + 1) * s == q * s + s) by (nonlinear_arith);
    if r == s - 1 {
        assert(c + 1 == (q + 1) * s + 0);
        lemma_fundamental_div_mod_converse(c + 1, s, q + 1, 0);
    } else {
        assert(c + 1 == q * s + (r + 1));
        lemma_fundamental_div_mod_converse(c + 1, s, q, r + 1);
    }
}

/// The highlight stream producer: owns its grammar and theme (shared,
/// read-only inputs are duplicated in), its snapshot cache, and the current
/// (parser state, scope stack) pair with the cursor line it belongs to.
/// Exclusively owned by one editor pane; two panes over one document each
/// need their own producer.
pub struct Highlighter {
    grammar: Grammar,
    theme: Theme,
    cache: SnapshotCache,
    state: ParserState,
    stack: ScopeStack,
    current_line: usize,
    errors: Vec<(usize, usize)>,
    doc: Ghost<Seq<Seq<u8>>>,
}

impl Highlighter {
    /// The grammar this producer tokenizes with.
    pub closed spec fn spec_grammar(self) -> Grammar {
        self.grammar
    }

    /// The theme this producer styles with.
    pub closed spec fn spec_theme(self) -> Theme {
        self.theme
    }

    /// The lines of the document that this producer's state derives from:
    /// everything highlighted or fast-forwarded over since the last full
    /// invalidation, up to the cursor.
    pub closed spec fn lines(self) -> Seq<Seq<u8>> {
        self.doc@
    }

    /// The cursor: the line the next `highlight_line` call is for.
    pub closed spec fn cur(self) -> int {
        self.current_line as int
    }

    /// The snapshot cache's checkpoints.
    pub closed spec fn cache_view(self) -> Seq<(Seq<usize>, Seq<Seq<u8>>)> {
        self.cache.view()
    }

    /// The validation error ranges last handed in (an overlay hook; unused
    /// during range computation).
    pub closed spec fn error_ranges(self) -> Seq<(usize, usize)> {
        self.errors@
    }

    /// The producer's invariant: the cursor sits right after the fed lines;
    /// every cached snapshot `i` is exactly the sequential state as of line
    /// `i * LINES_PER_SNAPSHOT` of the fed lines, and none lies past the
    /// cursor; the current pair is exactly the sequential state as of the
    /// cursor.
    pub closed spec fn wf(self) -> bool {
        &&& self.cache.wf()
        &&& self.doc@.len() == self.current_line as int
        &&& (self.cache.view().len() - 1) * (LINES_PER_SNAPSHOT as int) <= self.current_line as int
        &&& forall|i: int|
            0 <= i < self.cache.view().len() ==> #[trigger] self.cache.view()[i] == state_at(
                self.grammar,
                self.doc@,
                i * (LINES_PER_SNAPSHOT as int),
            )
        &&& (self.state.open@, names_view(self.stack.scopes@)) == state_at(
            self.grammar,
            self.doc@,
            self.current_line as int,
        )
    }

    /// The cache stays bounded: a producer never holds more checkpoints than
    /// one per stride of the lines it has derived state from, plus the seed
    /// for line 0. Growth only ever comes from crossing new boundaries.
    pub proof fn lemma_cache_bounded(self)
        requires
            self.wf(),
        ensures
            self.cache_view().len() <= self.lines().len() as int / (LINES_PER_SNAPSHOT as int) + 1,
    {
        let s = LINES_PER_SNAPSHOT as int;
        let nl = self.cache_view().len() as int;
        lemma_mul_div_cancel(nl - 1, s);
        lemma_div_is_ordered((nl - 1) * s, self.lines().len() as int, s);
    }

    /// Builds a producer: picks the grammar for the file extension (falling
    /// back to plain text), looks the theme up by the settings' name —
    /// failing with `ThemeNotFoundError` if and only if the name is unknown —
    /// and seeds the snapshot cache with the empty checkpoint for line 0.
    pub fn new(store: &GrammarStore, extension: &Vec<u8>, settings: &Settings) -> (r: Result<
        Highlighter,
        ThemeNotFoundError,
    >)
        requires
            store.wf(),
        ensures
            match r {
                Ok(h) => {
                    &&& h.wf()
                    &&& h.cur() == 0
                    &&& h.lines() == Seq::<Seq<u8>>::empty()
                    &&& h.cache_view() == seq![empty_snap()]
                    &&& match find_key(store.grammars(), extension@, 0) {
                        Some(i) => grammar_like(h.spec_grammar(), store.grammars()[i].1),
                        None => grammar_like(h.spec_grammar(), store.plain()),
                    }
                    &&& match find_key(store.themes(), settings.theme@, 0) {
                        Some(i) => theme_like(h.spec_theme(), store.themes()[i].1),
                        None => false,
                    }
                    &&& h.error_ranges() == settings.errors@
                },
                Err(e) => {
                    &&& e == ThemeNotFoundError::UnknownTheme
                    &&& find_key(store.themes(), settings.theme@, 0) is None
                },
            },
    {
        let theme = match store.theme(&settings.theme) {
            Ok(t) => t.duplicate(),
            Err(e) => {
                return Err(e);
            },
        };
        let grammar = store.find(extension).duplicate();
        let h = Highlighter {
            grammar,
            theme,
            cache: SnapshotCache::new(),
            state: ParserState::new(),
            stack: ScopeStack::new(),
            current_line: 0,
            errors: copy_ranges(&settings.errors),
            doc: Ghost(Seq::empty()),
        };
        proof {
            assert(names_view(h.stack.scopes@) =~= Seq::<Seq<u8>>::empty());
            assert(h.state.open@ =~= Seq::<usize>::empty());
        }
        Ok(h)
    }

    /// Swaps the theme and error overlay per the new settings, invalidates
    /// the entire cache and resets the cursor to line 0: a theme change makes
    /// every prior computation stale. Fails, changing nothing, if and only if
    /// the theme name is unknown.
    pub fn update(&mut self, store: &GrammarStore, settings: &Settings) -> (r: Result<
        (),
        ThemeNotFoundError,
    >)
        requires
            old(self).wf(),
        ensures
            match r {
                Ok(()) => {
                    &&& final(self).wf()
                    &&& final(self).cur() == 0
                    &&& final(self).lines() == Seq::<Seq<u8>>::empty()
                    &&& final(self).cache_view() == seq![empty_snap()]
                    &&& final(self).spec_grammar() == old(self).spec_grammar()
                    &&& match find_key(store.themes(), settings.theme@, 0) {
                        Some(i) => theme_like(final(self).spec_theme(), store.themes()[i].1),
                        None => false,
                    }
                    &&& final(self).error_ranges() == settings.errors@
                },
                Err(e) => {
                    &&& e == ThemeNotFoundError::UnknownTheme
                    &&& find_key(store.themes(), settings.theme@, 0) is None
                    &&& *final(self) == *old(self)
                },
            },
    {
        let theme = match store.theme(&settings.theme) {
            Ok(t) => t.duplicate(),
            Err(e) => {
                return Err(e);
            },
        };
        self.theme = theme;
        self.errors = copy_ranges(&settings.errors);
        self.cache = SnapshotCache::new();
        self.state = ParserState::new();
        self.stack = ScopeStack::new();
        self.current_line = 0;
        self.doc = Ghost(Seq::empty());
        proof {
            assert(names_view(self.stack.scopes@) =~= Seq::<Seq<u8>>::empty());
            assert(self.state.open@ =~= Seq::<usize>::empty());
        }
        Ok(())
    }

    /// The cursor, for the rendering layer to detect drift.
    pub fn current_line(&self) -> (r: usize)
        ensures
            r as int == self.cur(),
    {
        self.current_line
    }

    /// How many checkpoints the snapshot cache holds.
    pub fn cache_len(&self) -> (r: usize)
        ensures
            r == self.cache_view().len(),
    {
        self.cache.len()
    }

    /// Truncates the snapshot cache after an edit at line `k`: snapshot 0
    /// always stays, and a later snapshot stays exactly when its boundary
    /// line lies before `k`. If the cursor sat at or past the edit, it moves
    /// back to the last surviving checkpoint, so no state derived from lines
    /// at or past the edit is ever reused; a following `seek` re-derives
    /// forward from surviving checkpoints alone.
    pub fn invalidate_from(&mut self, k: usize)
        requires
            old(self).wf(),
        ensures
            final(self).wf(),
            final(self).spec_grammar() == old(self).spec_grammar(),
            final(self).spec_theme() == old(self).spec_theme(),
            final(self).error_ranges() == old(self).error_ranges(),
            final(self).cache_view() == old(self).cache_view().take(
                invalidate_keep(old(self).cache_view().len() as int, k as int),
            ),
            forall|i: int|
                1 <= i < final(self).cache_view().len() ==> #[trigger] (i * (
                LINES_PER_SNAPSHOT as int)) < k,
            final(self).cur() == if old(self).cur() >= k {
                (final(self).cache_view().len() - 1) * (LINES_PER_SNAPSHOT as int)
            } else {
                old(self).cur()
            },
            final(self).lines() == old(self).lines().take(final(self).cur()),
    {
        let ghost old_doc = self.doc@;
        let ghost old_len = self.cache.view().len() as int;
        self.cache.invalidate_from(k);
        proof {
            let s = LINES_PER_SNAPSHOT as int;
            let nl = self.cache.view().len() as int;
            assert(nl <= old_len);
            assert((nl - 1) * s <= (old_len - 1) * s) by (nonlinear_arith)
                requires
                    nl <= old_len,
                    s > 0,
            ;
        }
        if self.current_line >= k {
            let n = self.cache.len();
            let snap = self.cache.get(n - 1);
            let Snapshot { state, stack } = snap;
            self.state = state;
            self.stack = stack;
            self.current_line = (n - 1) * LINES_PER_SNAPSHOT;
            self.doc = Ghost(old_doc.take(self.current_line as int));
            proof {
                let s = LINES_PER_SNAPSHOT as int;
                let nl = self.cache.view().len() as int;
                assert forall|i: int| 0 <= i < nl implies #[trigger] self.cache.view()[i]
                    == state_at(self.grammar, self.doc@, i * s) by {
                    assert((i * s) <= ((nl - 1) * s)) by (nonlinear_arith)
                        requires
                            i <= nl - 1,
                            s > 0,
                    ;
                    lemma_state_at_prefix(self.grammar, old_doc, self.doc@, i * s);
                }
                lemma_state_at_prefix(
                    self.grammar,
                    old_doc,
                    self.doc@,
                    self.current_line as int,
                );
            }
        } else {
            proof {
                assert(self.doc@.take(self.current_line as int) =~= self.doc@);
            }
        }
    }

    /// Declares that the next `highlight_line` call is for line `line` of
    /// `doc`. Picks the nearest surviving checkpoint at or before `line`
    /// (clamped to the last one the cache holds), discards checkpoints past
    /// `line` — a backward jump invalidates them — and fast-forwards by
    /// tokenizing each intermediate line, recording a new checkpoint at every
    /// stride boundary crossed. Afterwards the cache holds exactly the
    /// checkpoints for boundaries `0 ..= line`, each equal to the sequential
    /// state of `doc` at its line.
    ///
    /// The lines fed so far must be a prefix of `doc`: after an edit,
    /// `invalidate_from` at the edited line re-establishes that.
    pub fn seek(&mut self, line: usize, doc: &Vec<Vec<u8>>)
        requires
            old(self).wf(),
            line < usize::MAX,
            line <= doc@.len(),
            old(self).lines().len() <= doc@.len(),
            forall|j: int|
                0 <= j < old(self).lines().len() ==> old(self).lines()[j] == #[trigger] names_view(
                    doc@,
                )[j],
        ensures
            final(self).wf(),
            final(self).spec_grammar() == old(self).spec_grammar(),
            final(self).spec_theme() == old(self).spec_theme(),
            final(self).error_ranges() == old(self).error_ranges(),
            final(self).cur() == line,
            final(self).lines() == names_view(doc@).take(line as int),
            final(self).cache_view().len() == line as int / (LINES_PER_SNAPSHOT as int) + 1,
            forall|i: int|
                0 <= i < final(self).cache_view().len() ==> #[trigger] final(self).cache_view()[i]
                    == state_at(
                    old(self).spec_grammar(),
                    names_view(doc@),
                    i * (LINES_PER_SNAPSHOT as int),
                ),
    {
        let ghost s = LINES_PER_SNAPSHOT as int;
        let ghost target = names_view(doc@);
        let ghost old_doc = self.doc@;
        let ghost g = self.grammar;

        proof {
            lemma_div_mul_le(line as int, s);
        }
        // Discard checkpoints past `line` (a backward jump invalidates them).
        let ghost pre_len = self.cache.view().len() as int;
        self.cache.invalidate_from(line + 1);
        proof {
            let keep = invalidate_keep(pre_len, line as int + 1);
            assert(keep == if pre_len <= line as int / s + 1 {
                pre_len
            } else {
                line as int / s + 1
            });
            // Surviving checkpoints match the sequential states of `doc`.
            let nl = self.cache.view().len() as int;
            assert((nl - 1) * s <= (pre_len - 1) * s) by (nonlinear_arith)
                requires
                    nl <= pre_len,
                    s > 0,
            ;
            assert forall|i: int| 0 <= i < nl implies #[trigger] self.cache.view()[i] == state_at(
                g,
                target,
                i * s,
            ) by {
                assert(i * s <= (nl - 1) * s) by (nonlinear_arith)
                    requires
                        i <= nl - 1,
                        s > 0,
                ;
                assert(forall|j: int|
                    0 <= j < old_doc.len() ==> old_doc[j] == #[trigger] target[j]);
                lemma_state_at_prefix(g, old_doc, target, i * s);
            }
            // After truncation the last checkpoint is the restart point.
            assert(nl - 1 <= line as int / s);
        }
        // Restart from the nearest surviving checkpoint at or before `line`.
        let (resume, snap) = self.cache.restart_near(line);
        let Snapshot { state, stack } = snap;
        self.state = state;
        self.stack = stack;
        self.current_line = resume;
        proof {
            let nl = self.cache.view().len() as int;
            assert(resume as int == (nl - 1) * s);
            lemma_mul_div_cancel(nl - 1, s);
            assert(resume as int / s == nl - 1);
            assert(resume as int % s == 0);
        }
        // Fast-forward, recording a checkpoint at each boundary crossed.
        while self.current_line < line
            invariant
                self.current_line <= line,
                line <= doc@.len(),
                target == names_view(doc@),
                target.len() == doc@.len(),
                g == self.grammar,
                self.theme == old(self).theme,
                self.errors == old(self).errors,
                self.cache.wf(),
                ({
                    let c = self.current_line as int;
                    self.cache.view().len() == c / s + 1 || (c % s == 0 && self.cache.view().len()
                        == c / s)
                }),
                (self.cache.view().len() - 1) * s <= self.current_line as int,
                forall|i: int|
                    0 <= i < self.cache.view().len() ==> #[trigger] self.cache.view()[i]
                        == state_at(g, target, i * s),
                (self.state.open@, names_view(self.stack.scopes@)) == state_at(
                    g,
                    target,
                    self.current_line as int,
                ),
                s == LINES_PER_SNAPSHOT as int,
            decreases line - self.current_line,
        {
            let ghost c = self.current_line as int;
            if self.current_line % LINES_PER_SNAPSHOT == 0 {
                let idx = self.current_line / LINES_PER_SNAPSHOT;
                if idx == self.cache.len() {
                    let snap2 = Snapshot {
                        state: self.state.duplicate(),
                        stack: self.stack.duplicate(),
                    };
                    self.cache.record(self.current_line, snap2);
                    proof {
                        assert(self.cache.view().len() == c / s + 1);
                        assert(forall|i: int|
                            0 <= i < self.cache.view().len() ==> #[trigger] self.cache.view()[i]
                                == state_at(g, target, i * s));
                        assert(((c / s + 1) - 1) * s == (c / s) * s) by (nonlinear_arith);
                        lemma_div_mul_le(c, s);
                    }
                }
            }
            proof {
                assert(self.cache.view().len() == c / s + 1);
            }
            let text = &doc[self.current_line];
            let (ops, next_state) = tokenize(&self.state, text, &self.grammar);
            proof {
                lemma_tokenize_ops_ok(g, self.state.open@, text@);
            }
            let _ranges = resolve(&mut self.stack, &ops, text.len(), &self.theme);
            self.state = next_state;
            self.current_line = self.current_line + 1;
            proof {
                assert(target[c] == text@);
                assert((self.state.open@, names_view(self.stack.scopes@)) == step_state(
                    g,
                    state_at(g, target, c),
                    target[c],
                ));
                assert((self.state.open@, names_view(self.stack.scopes@)) == state_at(
                    g,
                    target,
                    c + 1,
                ));
                lemma_succ_div(c, s);
                lemma_div_mul_le(c + 1, s);
                assert(((c + 1) / s + 1 - 1) * s <= c + 1 || ((c + 1) % s == 0 && ((c + 1) / s - 1)
                    * s <= c + 1)) by {
                    assert(((c + 1) / s) * s <= c + 1);
                    assert(((c + 1) / s - 1) * s <= ((c + 1) / s) * s) by (nonlinear_arith)
                        requires
                            s > 0,
                    ;
                }
            }
        }
        // Record the checkpoint for `line` itself if it is an uncached
        // boundary, so the cache holds exactly the boundaries `0 ..= line`.
        if self.current_line % LINES_PER_SNAPSHOT == 0 {
            let idx = self.current_line / LINES_PER_SNAPSHOT;
            if idx == self.cache.len() {
                let snap2 = Snapshot {
                    state: self.state.duplicate(),
                    stack: self.stack.duplicate(),
                };
                self.cache.record(self.current_line, snap2);
            }
        }
        self.doc = Ghost(target.take(line as int));
        proof {
            let c = line as int;
            assert(self.cache.view().len() == c / s + 1);
            let nl = self.cache.view().len() as int;
            assert((nl - 1) * s <= c) by {
                lemma_div_mul_le(c, s);
            }
            assert forall|i: int| 0 <= i < nl implies #[trigger] self.cache.view()[i] == state_at(
                g,
                self.doc@,
                i * s,
            ) by {
                assert(i * s <= (nl - 1) * s) by (nonlinear_arith)
                    requires
                        i <= nl - 1,
                        s > 0,
                ;
                assert(self.cache.view()[i] == state_at(g, target, i * s));
                lemma_state_at_prefix(g, target, self.doc@, i * s);
            }
            lemma_state_at_prefix(g, target, self.doc@, c);
        }
    }

    /// Highlights the line at the cursor: tokenizes it from the current
    /// parser state, resolves the operations into styled ranges covering
    /// exactly `[0, line.len())`, advances the cursor by one, and records a
    /// checkpoint first if the cursor sits on an uncrossed stride boundary.
    /// The returned ranges are exactly those of sequential highlighting of
    /// the fed lines from line 0.
    pub fn highlight_line(&mut self, line: &Vec<u8>) -> (r: Vec<(usize, usize, Style)>)
        requires
            old(self).wf(),
            old(self).cur() < usize::MAX,
        ensures
            final(self).wf(),
            final(self).cur() == old(self).cur() + 1,
            final(self).lines() == old(self).lines().push(line@),
            final(self).spec_grammar() == old(self).spec_grammar(),
            final(self).spec_theme() == old(self).spec_theme(),
            final(self).error_ranges() == old(self).error_ranges(),
            ranges_view(r@) == highlight_of(
                old(self).spec_grammar(),
                old(self).spec_theme(),
                final(self).lines(),
                old(self).cur(),
            ),
    {
        let ghost s = LINES_PER_SNAPSHOT as int;
        let ghost g = self.grammar;
        let ghost old_doc = self.doc@;
        let ghost c = self.current_line as int;
        let ghost new_doc = old_doc.push(line@);

        if self.current_line % LINES_PER_SNAPSHOT == 0 {
            let idx = self.current_line / LINES_PER_SNAPSHOT;
            if idx == self.cache.len() {
                let snap = Snapshot {
                    state: self.state.duplicate(),
                    stack: self.stack.duplicate(),
                };
                self.cache.record(self.current_line, snap);
                proof {
                    lemma_div_mul_le(c, s);
                    assert((c / s) * s == c) by {
                        assert(c == s * (c / s) + c % s) by {
                            lemma_fundamental_div_mod(c, s);
                        }
                    }
                }
            }
        }
        let (ops, next_state) = tokenize(&self.state, line, &self.grammar);
        proof {
            lemma_tokenize_ops_ok(g, self.state.open@, line@);
        }
        let ranges = resolve(&mut self.stack, &ops, line.len(), &self.theme);
        self.state = next_state;
        self.current_line = self.current_line + 1;
        self.doc = Ghost(new_doc);
        proof {
            assert(forall|j: int| 0 <= j < old_doc.len() ==> old_doc[j] == #[trigger] new_doc[j]);
            lemma_state_at_prefix(g, old_doc, new_doc, c);
            assert((self.state.open@, names_view(self.stack.scopes@)) == step_state(
                g,
                state_at(g, new_doc, c),
                new_doc[c],
            ));
            let nl = self.cache.view().len() as int;
            assert forall|i: int| 0 <= i < nl implies #[trigger] self.cache.view()[i] == state_at(
                g,
                new_doc,
                i * s,
            ) by {
                assert(i * s <= (nl - 1) * s) by (nonlinear_arith)
                    requires
                        i <= nl - 1,
                        s > 0,
                ;
                lemma_state_at_prefix(g, old_doc, new_doc, i * s);
            }
            assert(highlight_of(g, self.theme, new_doc, c) == spec_resolve(
                state_at(g, new_doc, c).1,
                spec_tokenize(g, state_at(g, new_doc, c).0, line@).0,
                0,
                line@.len() as int,
                self.theme,
            ));
        }
        ranges
    }
}

} // verus!
