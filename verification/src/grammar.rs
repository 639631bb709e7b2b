//! Grammar store: the static lexical grammars (pattern rules with scope
//! names), the colour themes (scope name to style), and the store that owns
//! them. Everything here is immutable after loading.
//!
//! A grammar is a list of rules. Each rule opens a named scope when its
//! literal begin pattern occurs in a line, and closes it either at the line's
//! end or at a literal end pattern (which may lie on a later line). Byte
//! offsets everywhere are offsets into the line's UTF-8 bytes.

use vstd::prelude::*;

use crate::util::bytes_eq;
use crate::util::copy_bytes;

verus! {

/// A font variant that a style may select besides its colour.
#[derive(Clone, Copy, PartialEq, Eq, Structural, Debug)]
pub enum FontVariant {
    Regular,
    Italic,
    Bold,
}

/// A resolved visual style: a foreground colour (sRGB bytes) and a font
/// variant.
#[derive(Clone, Copy, PartialEq, Eq, Structural, Debug)]
pub struct Style {
    pub red: u8,
    pub green: u8,
    pub blue: u8,
    pub font: FontVariant,
}

/// How a rule's scope closes: automatically at the end of the line, or at a
/// literal end pattern.
#[derive(PartialEq, Eq, Debug)]
pub enum EndPattern {
    LineEnd,
    Literal(Vec<u8>),
}

/// One lexical rule: a literal begin pattern that opens `scope`, and the way
/// the scope closes again.
#[derive(Debug)]
pub struct Rule {
    pub begin: Vec<u8>,
    pub end: EndPattern,
    pub scope: Vec<u8>,
}

/// A named, immutable lexical grammar: an ordered list of rules. On overlap
/// the earliest match in the line wins, and among rules matching at the same
/// offset the one listed first wins.
#[derive(Debug)]
pub struct Grammar {
    pub name: Vec<u8>,
    pub rules: Vec<Rule>,
}

/// An immutable mapping from scope names to styles, with a default style for
/// text under no themed scope.
#[derive(Debug)]
pub struct Theme {
    pub entries: Vec<(Vec<u8>, Style)>,
    pub default: Style,
}

/// A grammar definition was malformed: a rule with an empty begin pattern or
/// an empty literal end pattern.
#[derive(Clone, Copy, PartialEq, Eq, Structural, Debug)]
pub enum GrammarLoadError {
    Malformed,
}

/// A theme name that the store does not know.
#[derive(Clone, Copy, PartialEq, Eq, Structural, Debug)]
pub enum ThemeNotFoundError {
    UnknownTheme,
}

/// Whether one rule is well formed: its begin pattern is non-empty, and a
/// literal end pattern is non-empty too (an empty pattern would match
/// everywhere and the tokenizer could make no progress on it).
pub open spec fn wf_rule(r: Rule) -> bool {
    &&& r.begin@.len() > 0
    &&& match r.end {
        EndPattern::LineEnd => true,
        EndPattern::Literal(e) => e@.len() > 0,
    }
}

/// Whether a grammar is well formed: every rule is.
pub open spec fn wf_grammar(g: Grammar) -> bool {
    forall|i: int| 0 <= i < g.rules@.len() ==> wf_rule(#[trigger] g.rules@[i])
}

impl Rule {
    /// Checks well-formedness of one rule.
    pub fn check(&self) -> (r: bool)
        ensures
            r == wf_rule(*self),
    {
        if self.begin.len() == 0 {
            return false;
        }
        match &self.end {
            EndPattern::LineEnd => true,
            EndPattern::Literal(e) => e.len() > 0,
        }
    }

    /// Copies a rule field by field.
    pub fn duplicate(&self) -> (r: Rule)
        ensures
            r.begin@ == self.begin@,
            r.scope@ == self.scope@,
            match (r.end, self.end) {
                (EndPattern::LineEnd, EndPattern::LineEnd) => true,
                (EndPattern::Literal(a), EndPattern::Literal(b)) => a@ == b@,
                _ => false,
            },
    {
        Rule {
            begin: copy_bytes(&self.begin),
            end: match &self.end {
                EndPattern::LineEnd => EndPattern::LineEnd,
                EndPattern::Literal(e) => EndPattern::Literal(copy_bytes(e)),
            },
            scope: copy_bytes(&self.scope),
        }
    }
}

/// Spec-level equality of two rules: same begin bytes, same scope name and
/// the same end pattern.
pub open spec fn rule_like(a: Rule, b: Rule) -> bool {
    &&& a.begin@ == b.begin@
    &&& a.scope@ == b.scope@
    &&& match (a.end, b.end) {
        (EndPattern::LineEnd, EndPattern::LineEnd) => true,
        (EndPattern::Literal(x), EndPattern::Literal(y)) => x@ == y@,
        _ => false,
    }
}

/// Spec-level equality of two grammars: same name and rule-wise equal rules.
pub open spec fn grammar_like(a: Grammar, b: Grammar) -> bool {
    &&& a.name@ == b.name@
    &&& a.rules@.len() == b.rules@.len()
    &&& forall|i: int|
        0 <= i < a.rules@.len() ==> rule_like(#[trigger] a.rules@[i], b.rules@[i])
}

impl Grammar {
    /// Checks well-formedness of every rule.
    pub fn check(&self) -> (r: bool)
        ensures
            r == wf_grammar(*self),
    {
        let mut i: usize = 0;
        while i < self.rules.len()
            invariant
                i <= self.rules@.len(),
                forall|j: int| 0 <= j < i ==> wf_rule(#[trigger] self.rules@[j]),
            decreases self.rules@.len() - i,
        {
            if !self.rules[i].check() {
                return false;
            }
            i = i + 1;
        }
        true
    }

    /// Copies a grammar rule by rule.
    pub fn duplicate(&self) -> (r: Grammar)
        ensures
            grammar_like(r, *self),
    {
        let mut rules: Vec<Rule> = Vec::new();
        let mut i: usize = 0;
        while i < self.rules.len()
            invariant
                i <= self.rules@.len(),
                rules@.len() == i,
                forall|j: int| 0 <= j < i ==> rule_like(#[trigger] rules@[j], self.rules@[j]),
            decreases self.rules@.len() - i,
        {
            rules.push(self.rules[i].duplicate());
            i = i + 1;
        }
        Grammar { name: copy_bytes(&self.name), rules }
    }
}

/// Spec-level equality of two themes: same default style and entry-wise equal
/// entries.
pub open spec fn theme_like(a: Theme, b: Theme) -> bool {
    &&& a.default == b.default
    &&& a.entries@.len() == b.entries@.len()
    &&& forall|i: int|
        0 <= i < a.entries@.len()
            ==> (#[trigger] a.entries@[i]).0@ == b.entries@[i].0@ && a.entries@[i].1
            == b.entries@[i].1
}

impl Theme {
    /// Copies a theme entry by entry.
    pub fn duplicate(&self) -> (r: Theme)
        ensures
            theme_like(r, *self),
    {
        let mut entries: Vec<(Vec<u8>, Style)> = Vec::new();
        let mut i: usize = 0;
        while i < self.entries.len()
            invariant
                i <= self.entries@.len(),
                entries@.len() == i,
                forall|j: int|
                    0 <= j < i
                        ==> (#[trigger] entries@[j]).0@ == self.entries@[j].0@ && entries@[j].1
                        == self.entries@[j].1,
            decreases self.entries@.len() - i,
        {
            let name = copy_bytes(&self.entries[i].0);
            let style = self.entries[i].1;
            entries.push((name, style));
            i = i + 1;
        }
        Theme { entries, default: self.default }
    }
}

/// The grammar store: owns the loaded grammars, keyed by file extension, a
/// plain-text fallback grammar with no rules, and the loaded themes, keyed by
/// name. Loaded once and read-only afterwards.
#[derive(Debug)]
pub struct GrammarStore {
    grammars: Vec<(Vec<u8>, Grammar)>,
    plain: Grammar,
    themes: Vec<(Vec<u8>, Theme)>,
}

/// The first index in `s` whose key bytes equal `key`, if any.
pub open spec fn find_key<T>(s: Seq<(Vec<u8>, T)>, key: Seq<u8>, i: int) -> Option<int>
    decreases s.len() - i,
{
    if i < 0 || i >= s.len() {
        None
    } else if s[i].0@ == key {
        Some(i)
    } else {
        find_key(s, key, i + 1)
    }
}

impl GrammarStore {
    /// The grammars the store holds, with the extension each is keyed by.
    pub closed spec fn grammars(self) -> Seq<(Vec<u8>, Grammar)> {
        self.grammars@
    }

    /// The plain-text fallback grammar.
    pub closed spec fn plain(self) -> Grammar {
        self.plain
    }

    /// The themes the store holds, with the name each is keyed by.
    pub closed spec fn themes(self) -> Seq<(Vec<u8>, Theme)> {
        self.themes@
    }

    /// Whether every grammar in the store is well formed.
    pub open spec fn wf(self) -> bool {
        &&& forall|i: int|
            0 <= i < self.grammars().len() ==> wf_grammar((#[trigger] self.grammars()[i]).1)
        &&& wf_grammar(self.plain())
        &&& self.plain().rules@.len() == 0
    }

    /// Loads a store from grammar and theme definitions. Fails with
    /// `GrammarLoadError::Malformed` if and only if some grammar definition is
    /// malformed. The plain-text fallback grammar is built here and has no
    /// rules, so it is never malformed.
    pub fn load(grammars: Vec<(Vec<u8>, Grammar)>, themes: Vec<(Vec<u8>, Theme)>) -> (r: Result<
        GrammarStore,
        GrammarLoadError,
    >)
        ensures
            match r {
                Ok(store) => {
                    &&& store.wf()
                    &&& store.grammars() == grammars@
                    &&& store.themes() == themes@
                    &&& forall|i: int|
                        0 <= i < grammars@.len() ==> wf_grammar((#[trigger] grammars@[i]).1)
                },
                Err(e) => {
                    &&& e == GrammarLoadError::Malformed
                    &&& exists|i: int|
                        0 <= i < grammars@.len() && !wf_grammar((#[trigger] grammars@[i]).1)
                },
            },
    {
        let mut i: usize = 0;
        while i < grammars.len()
            invariant
                i <= grammars@.len(),
                forall|j: int| 0 <= j < i ==> wf_grammar((#[trigger] grammars@[j]).1),
            decreases grammars@.len() - i,
        {
            if !grammars[i].1.check() {
                return Err(GrammarLoadError::Malformed);
            }
            i = i + 1;
        }
        let mut plain_name: Vec<u8> = Vec::new();
        plain_name.push(112u8);  // 'p'
        plain_name.push(108u8);  // 'l'
        plain_name.push(97u8);  // 'a'
        plain_name.push(105u8);  // 'i'
        plain_name.push(110u8);  // 'n'
        let plain = Grammar { name: plain_name, rules: Vec::new() };
        Ok(GrammarStore { grammars, plain, themes })
    }

    /// Finds the grammar for a file extension; falls back to the plain-text
    /// grammar when no grammar is keyed by the extension. Never fails.
    pub fn find(&self, extension: &Vec<u8>) -> (r: &Grammar)
        ensures
            match find_key(self.grammars(), extension@, 0) {
                Some(i) => r == self.grammars()[i].1,
                None => r == self.plain(),
            },
    {
        let mut i: usize = 0;
        while i < self.grammars.len()
            invariant
                i <= self.grammars@.len(),
                find_key(self.grammars@, extension@, 0) == find_key(
                    self.grammars@,
                    extension@,
                    i as int,
                ),
            decreases self.grammars@.len() - i,
        {
            if bytes_eq(&self.grammars[i].0, extension) {
                return &self.grammars[i].1;
            }
            i = i + 1;
        }
        &self.plain
    }

    /// Looks a theme up by name; fails with `ThemeNotFoundError` if and only
    /// if no theme is keyed by the name.
    pub fn theme(&self, name: &Vec<u8>) -> (r: Result<&Theme, ThemeNotFoundError>)
        ensures
            match find_key(self.themes(), name@, 0) {
                Some(i) => r matches Ok(t) && t == self.themes()[i].1,
                None => r matches Err(e) && e == ThemeNotFoundError::UnknownTheme,
            },
    {
        let mut i: usize = 0;
        while i < self.themes.len()
            invariant
                i <= self.themes@.len(),
                find_key(self.themes@, name@, 0) == find_key(self.themes@, name@, i as int),
            decreases self.themes@.len() - i,
        {
            if bytes_eq(&self.themes[i].0, name) {
                return Ok(&self.themes[i].1);
            }
            i = i + 1;
        }
        Err(ThemeNotFoundError::UnknownTheme)
    }
}

} // verus!
