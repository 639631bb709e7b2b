//! The highlight stream producer end to end: sequential passes, seeking with
//! snapshot restarts, invalidation after edits, and settings updates.

use halo::cache::LINES_PER_SNAPSHOT;
use halo::grammar::{
    EndPattern, FontVariant, Grammar, GrammarStore, Rule, Style, Theme, ThemeNotFoundError,
};
use halo::highlighter::{Highlighter, Settings};

fn gray() -> Style {
    Style { red: 128, green: 128, blue: 128, font: FontVariant::Regular }
}

fn white() -> Style {
    Style { red: 226, green: 226, blue: 226, font: FontVariant::Regular }
}

fn gold() -> Style {
    Style { red: 255, green: 159, blue: 28, font: FontVariant::Italic }
}

fn wgsl_grammar() -> Grammar {
    Grammar {
        name: b"wgsl".to_vec(),
        rules: vec![
            Rule {
                begin: b"//".to_vec(),
                end: EndPattern::LineEnd,
                scope: b"comment".to_vec(),
            },
            Rule {
                begin: b"/*".to_vec(),
                end: EndPattern::Literal(b"*/".to_vec()),
                scope: b"comment.block".to_vec(),
            },
        ],
    }
}

fn mocha() -> Theme {
    Theme {
        entries: vec![
            (b"comment".to_vec(), gray()),
            (b"comment.block".to_vec(), gray()),
        ],
        default: white(),
    }
}

fn golden() -> Theme {
    Theme {
        entries: vec![
            (b"comment".to_vec(), gold()),
            (b"comment.block".to_vec(), gold()),
        ],
        default: white(),
    }
}

fn store() -> GrammarStore {
    GrammarStore::load(
        vec![(b"wgsl".to_vec(), wgsl_grammar())],
        vec![(b"mocha".to_vec(), mocha()), (b"golden".to_vec(), golden())],
    )
    .expect("grammars load")
}

fn settings(theme: &[u8]) -> Settings {
    Settings { theme: theme.to_vec(), errors: vec![] }
}

fn producer() -> Highlighter {
    Highlighter::new(&store(), &b"wgsl".to_vec(), &settings(b"mocha")).expect("theme exists")
}

/// A document whose lines 40 .. 55 sit inside one block comment, so state
/// genuinely crosses the snapshot boundary at line 50.
fn document() -> Vec<Vec<u8>> {
    let mut doc: Vec<Vec<u8>> = Vec::new();
    for i in 0..120usize {
        if i == 40 {
            doc.push(b"start /* open".to_vec());
        } else if i == 55 {
            doc.push(b"close */ end".to_vec());
        } else {
            doc.push(format!("line {i}").into_bytes());
        }
    }
    doc
}

#[test]
fn unknown_theme_is_refused() {
    let r = Highlighter::new(&store(), &b"wgsl".to_vec(), &settings(b"nope"));
    assert!(matches!(r, Err(ThemeNotFoundError::UnknownTheme)));
}

#[test]
fn comment_scenario_ranges() {
    let mut h = producer();
    let line = b"let x = 1; // note".to_vec();
    let ranges = h.highlight_line(&line);
    assert_eq!(ranges, vec![(0, 11, white()), (11, 18, gray())]);
    assert_eq!(h.current_line(), 1);
}

#[test]
fn seek_fast_forwards_and_records_snapshots() {
    let doc = document();
    let mut h = producer();
    assert_eq!(h.cache_len(), 1);
    h.seek(110, &doc);
    assert_eq!(h.current_line(), 110);
    // Snapshots now exist for lines 0, 50 and 100.
    assert_eq!(h.cache_len(), 110 / LINES_PER_SNAPSHOT + 1);
    let ranges = h.highlight_line(&doc[110]);
    assert_eq!(ranges, vec![(0, doc[110].len(), white())]);
}

#[test]
fn restart_equals_sequential() {
    let doc = document();

    // Sequential pass from line 0.
    let mut sequential = producer();
    let mut expected = None;
    for i in 0..=45usize {
        let r = sequential.highlight_line(&doc[i]);
        if i == 45 {
            expected = Some(r);
        }
    }

    // Restarted pass: seek straight to line 45, which sits inside the block
    // comment opened at line 40.
    let mut restarted = producer();
    restarted.seek(45, &doc);
    let got = restarted.highlight_line(&doc[45]);
    assert_eq!(got, expected.unwrap());
    assert_eq!(got, vec![(0, doc[45].len(), gray())]);
}

#[test]
fn restart_across_snapshot_boundary_equals_sequential() {
    let doc = document();

    let mut sequential = producer();
    let mut expected = None;
    for i in 0..=54usize {
        let r = sequential.highlight_line(&doc[i]);
        if i == 54 {
            expected = Some(r);
        }
    }

    // Line 54 is still inside the comment; the snapshot at line 50 carries
    // that state.
    let mut restarted = producer();
    restarted.seek(110, &doc);
    restarted.seek(54, &doc);
    let got = restarted.highlight_line(&doc[54]);
    assert_eq!(got, expected.unwrap());
    assert_eq!(got, vec![(0, doc[54].len(), gray())]);
}

#[test]
fn edit_invalidates_snapshots_and_later_lines() {
    let doc = document();
    let mut h = producer();
    h.seek(110, &doc);
    assert_eq!(h.cache_len(), 3);

    // An edit at line 60: the snapshots for lines 0 and 50 survive.
    h.invalidate_from(60);
    assert_eq!(h.cache_len(), 2);
    assert_eq!(h.current_line(), LINES_PER_SNAPSHOT);

    // The edit closes the comment one line earlier.
    let mut edited = doc.clone();
    edited[54] = b"done */ early".to_vec();

    h.seek(54, &edited);
    let got = h.highlight_line(&edited[54]);

    // A fresh pass over the edited document agrees: no stale state from the
    // old line 54 is reused.
    let mut fresh = producer();
    fresh.seek(54, &edited);
    let expected = fresh.highlight_line(&edited[54]);
    assert_eq!(got, expected);
    assert_eq!(
        got,
        vec![(0, 7, gray()), (7, edited[54].len(), white())]
    );
}

#[test]
fn edit_on_boundary_drops_that_snapshot() {
    let doc = document();
    let mut h = producer();
    h.seek(110, &doc);
    h.invalidate_from(LINES_PER_SNAPSHOT);
    assert_eq!(h.cache_len(), 1);
    assert_eq!(h.current_line(), 0);
}

#[test]
fn rehighlighting_unchanged_document_is_identical() {
    let doc = document();
    let mut h = producer();

    let mut first: Vec<Vec<(usize, usize, Style)>> = Vec::new();
    for line in &doc {
        first.push(h.highlight_line(line));
    }

    // Full invalidation between the passes.
    h.update(&store(), &settings(b"mocha")).expect("theme exists");
    assert_eq!(h.current_line(), 0);
    assert_eq!(h.cache_len(), 1);

    let mut second: Vec<Vec<(usize, usize, Style)>> = Vec::new();
    for line in &doc {
        second.push(h.highlight_line(line));
    }
    assert_eq!(first, second);
}

#[test]
fn settings_update_swaps_theme_and_resets() {
    let mut h = producer();
    let line = b"// gray first".to_vec();
    let before = h.highlight_line(&line);
    assert_eq!(before, vec![(0, line.len(), gray())]);

    h.update(&store(), &settings(b"golden")).expect("theme exists");
    assert_eq!(h.current_line(), 0);
    let after = h.highlight_line(&line);
    assert_eq!(after, vec![(0, line.len(), gold())]);

    // An unknown theme leaves the producer untouched.
    let mut h2 = producer();
    assert!(h2.update(&store(), &settings(b"nope")).is_err());
    let still = h2.highlight_line(&line);
    assert_eq!(still, vec![(0, line.len(), gray())]);
}

#[test]
fn backward_seek_discards_later_snapshots() {
    let doc = document();
    let mut h = producer();
    h.seek(110, &doc);
    assert_eq!(h.cache_len(), 3);
    h.seek(10, &doc);
    assert_eq!(h.current_line(), 10);
    assert_eq!(h.cache_len(), 1);
    let r = h.highlight_line(&doc[10]);
    assert_eq!(r, vec![(0, doc[10].len(), white())]);
}

#[test]
fn plain_fallback_styles_everything_default() {
    let mut h =
        Highlighter::new(&store(), &b"txt".to_vec(), &settings(b"mocha")).expect("theme exists");
    let line = b"// not a comment in plain text".to_vec();
    let r = h.highlight_line(&line);
    assert_eq!(r, vec![(0, line.len(), white())]);
}

#[test]
fn error_ranges_are_kept_but_do_not_change_ranges() {
    let st = store();
    let with_errors = Settings { theme: b"mocha".to_vec(), errors: vec![(3, 9)] };
    let mut h = Highlighter::new(&st, &b"wgsl".to_vec(), &with_errors).expect("theme exists");
    let line = b"let x = 1; // note".to_vec();
    let ranges = h.highlight_line(&line);
    assert_eq!(ranges, vec![(0, 11, white()), (11, 18, gray())]);
}
