//! Tokenizer, resolver, grammar store and snapshot cache behaviour on
//! concrete inputs.

use halo::cache::{Snapshot, SnapshotCache, LINES_PER_SNAPSHOT};
use halo::grammar::{
    EndPattern, FontVariant, Grammar, GrammarLoadError, GrammarStore, Rule, Style, Theme,
    ThemeNotFoundError,
};
use halo::resolver::{resolve, ScopeStack};
use halo::tokenizer::{tokenize, ParserState, ScopeOp};

fn gray() -> Style {
    Style { red: 128, green: 128, blue: 128, font: FontVariant::Regular }
}

fn plain_style() -> Style {
    Style { red: 226, green: 226, blue: 226, font: FontVariant::Regular }
}

fn comment_grammar() -> Grammar {
    Grammar {
        name: b"wgsl".to_vec(),
        rules: vec![Rule {
            begin: b"//".to_vec(),
            end: EndPattern::LineEnd,
            scope: b"comment".to_vec(),
        }],
    }
}

fn block_grammar() -> Grammar {
    Grammar {
        name: b"wgsl".to_vec(),
        rules: vec![
            Rule {
                begin: b"//".to_vec(),
                end: EndPattern::LineEnd,
                scope: b"comment".to_vec(),
            },
            Rule {
                begin: b"/*".to_vec(),
                end: EndPattern::Literal(b"*/".to_vec()),
                scope: b"comment.block".to_vec(),
            },
        ],
    }
}

fn gray_theme() -> Theme {
    Theme {
        entries: vec![
            (b"comment".to_vec(), gray()),
            (b"comment.block".to_vec(), gray()),
        ],
        default: plain_style(),
    }
}

#[test]
fn line_comment_ops_and_state() {
    let grammar = comment_grammar();
    let state = ParserState::new();
    let line = b"let x = 1; // note".to_vec();
    let (ops, next) = tokenize(&state, &line, &grammar);
    assert_eq!(
        ops,
        vec![
            (11, ScopeOp::Push(b"comment".to_vec())),
            (18, ScopeOp::Pop),
        ]
    );
    // The comment auto-closed at the line boundary: the outgoing state is
    // empty again.
    assert!(next.open.is_empty());
}

#[test]
fn line_comment_ranges() {
    let grammar = comment_grammar();
    let theme = gray_theme();
    let state = ParserState::new();
    let line = b"let x = 1; // note".to_vec();
    let (ops, _next) = tokenize(&state, &line, &grammar);
    let mut stack = ScopeStack::new();
    let ranges = resolve(&mut stack, &ops, line.len(), &theme);
    assert_eq!(ranges, vec![(0, 11, plain_style()), (11, 18, gray())]);
    assert!(stack.scopes.is_empty());
}

#[test]
fn tokenize_is_deterministic() {
    let grammar = block_grammar();
    let state = ParserState::new();
    let line = b"a /* b // c".to_vec();
    let (ops1, next1) = tokenize(&state, &line, &grammar);
    let (ops2, next2) = tokenize(&state, &line, &grammar);
    assert_eq!(ops1, ops2);
    assert_eq!(next1.open, next2.open);
}

#[test]
fn block_comment_spans_lines() {
    let grammar = block_grammar();
    let theme = gray_theme();
    let state = ParserState::new();

    let line0 = b"a /* b".to_vec();
    let (ops0, state1) = tokenize(&state, &line0, &grammar);
    assert_eq!(ops0, vec![(2, ScopeOp::Push(b"comment.block".to_vec()))]);
    assert_eq!(state1.open, vec![1]);

    // Inside the block only its end pattern counts: `//` does not open a
    // line comment here.
    let line1 = b"still // inside".to_vec();
    let (ops1, state2) = tokenize(&state1, &line1, &grammar);
    assert!(ops1.is_empty());
    assert_eq!(state2.open, vec![1]);

    let line2 = b"end */ done".to_vec();
    let (ops2, state3) = tokenize(&state2, &line2, &grammar);
    assert_eq!(ops2, vec![(6, ScopeOp::Pop)]);
    assert!(state3.open.is_empty());

    let mut stack = ScopeStack::new();
    let r0 = resolve(&mut stack, &ops0, line0.len(), &theme);
    assert_eq!(r0, vec![(0, 2, plain_style()), (2, 6, gray())]);
    let r1 = resolve(&mut stack, &ops1, line1.len(), &theme);
    assert_eq!(r1, vec![(0, 15, gray())]);
    let r2 = resolve(&mut stack, &ops2, line2.len(), &theme);
    assert_eq!(r2, vec![(0, 6, gray()), (6, 11, plain_style())]);
    assert!(stack.scopes.is_empty());
}

#[test]
fn ranges_cover_every_line_exactly() {
    let grammar = block_grammar();
    let theme = gray_theme();
    let lines: Vec<Vec<u8>> = vec![
        b"plain".to_vec(),
        b"a /* b".to_vec(),
        b"c */ d // e".to_vec(),
        b"".to_vec(),
        b"// all comment".to_vec(),
    ];
    let mut state = ParserState::new();
    let mut stack = ScopeStack::new();
    for line in &lines {
        let (ops, next) = tokenize(&state, line, &grammar);
        let ranges = resolve(&mut stack, &ops, line.len(), &theme);
        // The ranges partition [0, line.len()): contiguous, non-empty, no
        // gaps, no overlaps.
        let mut at = 0usize;
        for &(start, end, _style) in &ranges {
            assert_eq!(start, at);
            assert!(start < end);
            at = end;
        }
        assert_eq!(at, line.len());
        state = next;
    }
}

#[test]
fn pop_on_empty_stack_is_ignored() {
    let theme = gray_theme();
    let mut stack = ScopeStack::new();
    let ops = vec![(0usize, ScopeOp::Pop), (2usize, ScopeOp::Pop)];
    let ranges = resolve(&mut stack, &ops, 4, &theme);
    assert_eq!(ranges, vec![(0, 2, plain_style()), (2, 4, plain_style())]);
    assert!(stack.scopes.is_empty());
}

#[test]
fn foreign_state_degrades_to_noop() {
    let grammar = comment_grammar();
    // An open rule index the grammar does not have: the tokenizer degrades
    // to a single no-op covering the whole line and keeps the state.
    let state = ParserState { open: vec![7] };
    let line = b"// would be a comment".to_vec();
    let (ops, next) = tokenize(&state, &line, &grammar);
    assert_eq!(ops, vec![(0, ScopeOp::Noop)]);
    assert_eq!(next.open, vec![7]);
}

#[test]
fn earliest_match_wins_and_ties_go_to_the_first_rule() {
    let grammar = Grammar {
        name: b"g".to_vec(),
        rules: vec![
            Rule {
                begin: b"ab".to_vec(),
                end: EndPattern::LineEnd,
                scope: b"first".to_vec(),
            },
            Rule {
                begin: b"a".to_vec(),
                end: EndPattern::LineEnd,
                scope: b"second".to_vec(),
            },
        ],
    };
    let state = ParserState::new();
    let (ops, _) = tokenize(&state, &b"xx ab".to_vec(), &grammar);
    assert_eq!(
        ops,
        vec![(3, ScopeOp::Push(b"first".to_vec())), (5, ScopeOp::Pop)]
    );
}

#[test]
fn store_load_find_and_theme() {
    let store = GrammarStore::load(
        vec![(b"wgsl".to_vec(), comment_grammar())],
        vec![(b"mocha".to_vec(), gray_theme())],
    )
    .expect("well-formed grammars load");
    let found = store.find(&b"wgsl".to_vec());
    assert_eq!(found.name, b"wgsl".to_vec());
    // Unknown extensions fall back to the rule-less plain-text grammar.
    let fallback = store.find(&b"txt".to_vec());
    assert!(fallback.rules.is_empty());
    assert!(store.theme(&b"mocha".to_vec()).is_ok());
    assert_eq!(
        store.theme(&b"missing".to_vec()).unwrap_err(),
        ThemeNotFoundError::UnknownTheme
    );
}

#[test]
fn store_load_rejects_malformed_grammar() {
    let bad = Grammar {
        name: b"bad".to_vec(),
        rules: vec![Rule {
            begin: Vec::new(),
            end: EndPattern::LineEnd,
            scope: b"s".to_vec(),
        }],
    };
    let r = GrammarStore::load(vec![(b"b".to_vec(), bad)], vec![]);
    assert_eq!(r.unwrap_err(), GrammarLoadError::Malformed);
}

#[test]
fn store_load_rejects_empty_end_pattern() {
    let bad = Grammar {
        name: b"bad".to_vec(),
        rules: vec![Rule {
            begin: b"(".to_vec(),
            end: EndPattern::Literal(Vec::new()),
            scope: b"s".to_vec(),
        }],
    };
    let r = GrammarStore::load(vec![(b"b".to_vec(), bad)], vec![]);
    assert_eq!(r.unwrap_err(), GrammarLoadError::Malformed);
}

#[test]
fn cache_records_only_stride_boundaries() {
    let mut cache = SnapshotCache::new();
    assert_eq!(cache.len(), 1);
    cache.record(7, Snapshot::empty());
    assert_eq!(cache.len(), 1);
    cache.record(LINES_PER_SNAPSHOT, Snapshot::empty());
    assert_eq!(cache.len(), 2);
    // A boundary past the next one is not recorded.
    cache.record(3 * LINES_PER_SNAPSHOT, Snapshot::empty());
    assert_eq!(cache.len(), 2);
    cache.record(2 * LINES_PER_SNAPSHOT, Snapshot::empty());
    assert_eq!(cache.len(), 3);
}

#[test]
fn cache_restart_clamps_to_last_snapshot() {
    let mut cache = SnapshotCache::new();
    let (line0, snap0) = cache.restart_near(120);
    assert_eq!(line0, 0);
    assert!(snap0.state.open.is_empty());
    cache.record(
        LINES_PER_SNAPSHOT,
        Snapshot { state: ParserState { open: vec![0] }, stack: ScopeStack { scopes: vec![] } },
    );
    let (line1, snap1) = cache.restart_near(120);
    assert_eq!(line1, LINES_PER_SNAPSHOT);
    assert_eq!(snap1.state.open, vec![0]);
    let (line2, _snap2) = cache.restart_near(20);
    assert_eq!(line2, 0);
}

#[test]
fn cache_invalidation_keeps_earlier_boundaries_only() {
    let mut cache = SnapshotCache::new();
    cache.record(LINES_PER_SNAPSHOT, Snapshot::empty());
    cache.record(2 * LINES_PER_SNAPSHOT, Snapshot::empty());
    assert_eq!(cache.len(), 3);
    // An edit at line 60: the snapshots for lines 0 and 50 survive, the one
    // for line 100 goes.
    cache.invalidate_from(60);
    assert_eq!(cache.len(), 2);
    // An edit exactly on a boundary drops that boundary's snapshot too.
    cache.invalidate_from(LINES_PER_SNAPSHOT);
    assert_eq!(cache.len(), 1);
    // Snapshot 0 always survives.
    cache.invalidate_from(0);
    assert_eq!(cache.len(), 1);
}
