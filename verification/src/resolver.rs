//! Scope resolver: folds a line's scope-stack operations into styled byte
//! ranges. Walking the operations in offset order, each range between two
//! boundaries is styled according to the stack as it stood before the
//! operation at the range's end; empty ranges are skipped; a trailing range
//! runs to the line's end. Popping an empty stack is silently ignored: a
//! malformed grammar can never corrupt the stack, only leave it empty.
//!
//! The ranges returned are contiguous, non-overlapping, and together cover
//! exactly `[0, line_len)` (`lemma_resolve_partitions`).

use vstd::prelude::*;

use crate::grammar::Style;
use crate::grammar::Theme;
use crate::grammar::find_key;
use crate::tokenizer::ScopeOp;
use crate::tokenizer::SpecOp;
use crate::tokenizer::ops_ok;
use crate::tokenizer::ops_view;
use crate::util::copy_bytes;
use crate::util::copy_names;
use crate::util::names_view;

verus! {

/// The stack of currently open scope names, outermost first. Mutated only by
/// applying scope-stack operations in byte order.
#[derive(Debug)]
pub struct ScopeStack {
    pub scopes: Vec<Vec<u8>>,
}

impl ScopeStack {
    /// The empty stack, as at the start of a document.
    pub fn new() -> (r: ScopeStack)
        ensures
            names_view(r.scopes@) == Seq::<Seq<u8>>::empty(),
    {
        let r = ScopeStack { scopes: Vec::new() };
        proof {
            assert(names_view(r.scopes@) =~= Seq::<Seq<u8>>::empty());
        }
        r
    }

    /// Copies the stack (snapshots duplicate it by value).
    pub fn duplicate(&self) -> (r: ScopeStack)
        ensures
            names_view(r.scopes@) == names_view(self.scopes@),
    {
        ScopeStack { scopes: copy_names(&self.scopes) }
    }
}

/// Applying one operation to a scope stack: push opens a scope, pop closes
/// the innermost one (and is ignored on an empty stack), noop changes
/// nothing.
pub open spec fn apply_op(stack: Seq<Seq<u8>>, op: SpecOp) -> Seq<Seq<u8>> {
    match op {
        SpecOp::Push(name) => stack.push(name),
        SpecOp::Pop => if stack.len() > 0 {
            stack.drop_last()
        } else {
            stack
        },
        SpecOp::Noop => stack,
    }
}

/// Applying a list of operations in order.
pub open spec fn apply_ops(stack: Seq<Seq<u8>>, ops: Seq<(int, SpecOp)>) -> Seq<Seq<u8>>
    decreases ops.len(),
{
    if ops.len() == 0 {
        stack
    } else {
        apply_ops(apply_op(stack, ops[0].1), ops.drop_first())
    }
}

/// The style a theme assigns to one scope name, if any; the first entry with
/// the name wins.
pub open spec fn theme_style(t: Theme, name: Seq<u8>) -> Option<Style> {
    match find_key(t.entries@, name, 0) {
        Some(i) => Some(t.entries@[i].1),
        None => None,
    }
}

/// The style of a scope stack: the innermost scope with a theme entry decides
/// (the longest themed suffix of the stack); a stack none of whose scopes is
/// themed gets the theme's default style.
pub open spec fn style_of(stack: Seq<Seq<u8>>, t: Theme) -> Style
    decreases stack.len(),
{
    if stack.len() == 0 {
        t.default
    } else {
        match theme_style(t, stack.last()) {
            Some(s) => s,
            None => style_of(stack.drop_last(), t),
        }
    }
}

/// The mathematical value of a returned range list.
pub open spec fn ranges_view(s: Seq<(usize, usize, Style)>) -> Seq<(int, int, Style)> {
    s.map(|j: int, p: (usize, usize, Style)| (p.0 as int, p.1 as int, p.2))
}

/// What `resolve` returns, walking the operations from `last` on: before each
/// operation at offset `o` the range `[last, o)` gets the stack's style (and
/// is skipped when empty), then the operation is applied; after the last
/// operation the trailing range `[last, len)` gets the final stack's style.
pub open spec fn spec_resolve(
    stack: Seq<Seq<u8>>,
    ops: Seq<(int, SpecOp)>,
    last: int,
    len: int,
    t: Theme,
) -> Seq<(int, int, Style)>
    decreases ops.len(),
{
    if ops.len() == 0 {
        if last < len {
            seq![(last, len, style_of(stack, t))]
        } else {
            Seq::empty()
        }
    } else {
        let o = ops[0].0;
        let head: Seq<(int, int, Style)> = if last < o {
            seq![(last, o, style_of(stack, t))]
        } else {
            Seq::empty()
        };
        head.add(spec_resolve(apply_op(stack, ops[0].1), ops.drop_first(), o, len, t))
    }
}

/// Whether a range list partitions `[lo, hi)` exactly: non-empty ranges,
/// each starting where the previous ended, the first at `lo`, the last
/// ending at `hi` (and no ranges at all exactly when `lo == hi`).
pub open spec fn ranges_partition(rs: Seq<(int, int, Style)>, lo: int, hi: int) -> bool {
    if rs.len() == 0 {
        lo == hi
    } else {
        &&& rs[0].0 == lo
        &&& rs.last().1 == hi
        &&& forall|k: int| 0 <= k < rs.len() ==> (#[trigger] rs[k]).0 < rs[k].1
        &&& forall|k: int| 0 <= k < rs.len() - 1 ==> (#[trigger] rs[k]).1 == rs[k + 1].0
    }
}

/// Coverage: for operations whose offsets lie within `[last, len]` in
/// non-decreasing order — as the tokenizer emits them — the resolved ranges
/// partition `[last, len)` exactly: no gaps, no overlaps.
pub proof fn lemma_resolve_partitions(
    stack: Seq<Seq<u8>>,
    ops: Seq<(int, SpecOp)>,
    last: int,
    len: int,
    t: Theme,
)
    requires
        ops_ok(ops, last, len),
        last <= len,
    ensures
        ranges_partition(spec_resolve(stack, ops, last, len, t), last, len),
    decreases ops.len(),
{
    if ops.len() == 0 {
    } else {
        let o = ops[0].0;
        let tail = ops.drop_first();
        assert(forall|k: int| 0 <= k < tail.len() ==> (#[trigger] tail[k]) == ops[k + 1]);
        assert(ops_ok(tail, o, len));
        lemma_resolve_partitions(apply_op(stack, ops[0].1), tail, o, len, t);
        let rest = spec_resolve(apply_op(stack, ops[0].1), tail, o, len, t);
        if last < o {
            let head = seq![(last, o, style_of(stack, t))];
            let whole = head.add(rest);
            assert(whole[0].0 == last);
            if rest.len() == 0 {
                assert(o == len);
                assert(whole.last() == head[0]);
            } else {
                assert(whole.last() == rest.last());
                assert(whole[0].1 == o == rest[0].0);
                assert(forall|k: int| 1 <= k < whole.len() ==> (#[trigger] whole[k]) == rest[k - 1]);
            }
        } else {
            assert(last == o);
            assert(Seq::<(int, int, Style)>::empty().add(rest) =~= rest);
        }
    }
}

/// Looks one scope name up in the theme.
fn theme_lookup(t: &Theme, name: &Vec<u8>) -> (r: Option<Style>)
    ensures
        r == theme_style(*t, name@),
{
    let mut i: usize = 0;
    while i < t.entries.len()
        invariant
            i <= t.entries@.len(),
            find_key(t.entries@, name@, 0) == find_key(t.entries@, name@, i as int),
        decreases t.entries@.len() - i,
    {
        if crate::util::bytes_eq(&t.entries[i].0, name) {
            return Some(t.entries[i].1);
        }
        i = i + 1;
    }
    None
}

/// The style of the current scope stack under the theme.
fn style_for(scopes: &Vec<Vec<u8>>, t: &Theme) -> (s: Style)
    ensures
        s == style_of(names_view(scopes@), *t),
{
    let ghost full = names_view(scopes@);
    let mut k: usize = scopes.len();
    proof {
        assert(full.take(k as int) =~= full);
    }
    while k > 0
        invariant
            k <= scopes@.len(),
            full == names_view(scopes@),
            style_of(full, *t) == style_of(full.take(k as int), *t),
        decreases k,
    {
        k = k - 1;
        let found = theme_lookup(t, &scopes[k]);
        proof {
            assert(full.take(k + 1).last() == full[k as int]);
            assert(full.take(k + 1).drop_last() =~= full.take(k as int));
        }
        match found {
            Some(s) => {
                proof {
                    assert(style_of(full.take(k + 1), *t) == s);
                }
                return s;
            },
            None => {
                proof {
                    assert(style_of(full.take(k + 1), *t) == style_of(full.take(k as int), *t));
                }
            },
        }
    }
    proof {
        assert(full.take(0) =~= Seq::<Seq<u8>>::empty());
    }
    t.default
}

/// Resolves one line's operations into styled byte ranges, updating the
/// scope stack in place. The operations must lie within the line in
/// non-decreasing offset order, as the tokenizer emits them. The returned
/// ranges are contiguous, non-overlapping and together cover exactly
/// `[0, line_len)`; each is styled by the stack as it stood over that range,
/// via the longest themed suffix of the stack.
pub fn resolve(
    stack: &mut ScopeStack,
    ops: &Vec<(usize, ScopeOp)>,
    line_len: usize,
    theme: &Theme,
) -> (r: Vec<(usize, usize, Style)>)
    requires
        ops_ok(ops_view(ops@), 0, line_len as int),
    ensures
        ranges_view(r@) == spec_resolve(
            names_view(old(stack).scopes@),
            ops_view(ops@),
            0,
            line_len as int,
            *theme,
        ),
        names_view(final(stack).scopes@) == apply_ops(
            names_view(old(stack).scopes@),
            ops_view(ops@),
        ),
{
    let ghost opsv = ops_view(ops@);
    let ghost stack0 = names_view(old(stack).scopes@);
    let mut out: Vec<(usize, usize, Style)> = Vec::new();
    let mut last: usize = 0;
    let mut j: usize = 0;
    proof {
        assert(opsv.skip(0) =~= opsv);
        assert(ranges_view(out@) =~= Seq::<(int, int, Style)>::empty());
        assert(ranges_view(out@).add(
            spec_resolve(names_view(stack.scopes@), opsv, 0, line_len as int, *theme),
        ) =~= spec_resolve(names_view(stack.scopes@), opsv, 0, line_len as int, *theme));
    }
    while j < ops.len()
        invariant
            j <= ops@.len(),
            last <= line_len,
            opsv == ops_view(ops@),
            opsv.len() == ops@.len(),
            ops_ok(opsv, 0, line_len as int),
            ops_ok(opsv.skip(j as int), last as int, line_len as int),
            spec_resolve(stack0, opsv, 0, line_len as int, *theme) == ranges_view(out@).add(
                spec_resolve(
                    names_view(stack.scopes@),
                    opsv.skip(j as int),
                    last as int,
                    line_len as int,
                    *theme,
                ),
            ),
            apply_ops(stack0, opsv) == apply_ops(names_view(stack.scopes@), opsv.skip(j as int)),
        decreases ops@.len() - j,
    {
        let ghost pre_stack = names_view(stack.scopes@);
        let ghost pre_out = out@;
        let ghost pre_last = last as int;
        let ghost rem = opsv.skip(j as int);
        proof {
            assert(rem[0] == opsv[j as int]);
            assert(rem.drop_first() =~= opsv.skip(j + 1));
        }
        let o = ops[j].0;
        proof {
            assert(o as int == opsv[j as int].0);
        }
        if last < o {
            let s = style_for(&stack.scopes, theme);
            out.push((last, o, s));
            proof {
                assert(ranges_view(out@) =~= ranges_view(pre_out).push(
                    (pre_last, o as int, style_of(pre_stack, *theme)),
                ));
            }
        }
        match &ops[j].1 {
            ScopeOp::Push(name) => {
                let n = copy_bytes(name);
                stack.scopes.push(n);
                proof {
                    assert(names_view(stack.scopes@) =~= pre_stack.push(name@));
                    assert(names_view(stack.scopes@) == apply_op(pre_stack, rem[0].1));
                }
            },
            ScopeOp::Pop => {
                if stack.scopes.len() > 0 {
                    stack.scopes.truncate(stack.scopes.len() - 1);
                    proof {
                        assert(names_view(stack.scopes@) =~= pre_stack.drop_last());
                    }
                }
                proof {
                    assert(names_view(stack.scopes@) == apply_op(pre_stack, rem[0].1));
                }
            },
            ScopeOp::Noop => {
                proof {
                    assert(names_view(stack.scopes@) == apply_op(pre_stack, rem[0].1));
                }
            },
        }
        last = o;
        j = j + 1;
        proof {
            let head: Seq<(int, int, Style)> = if pre_last < o as int {
                seq![(pre_last, o as int, style_of(pre_stack, *theme))]
            } else {
                Seq::empty()
            };
            assert(spec_resolve(pre_stack, rem, pre_last, line_len as int, *theme) == head.add(
                spec_resolve(
                    names_view(stack.scopes@),
                    opsv.skip(j as int),
                    last as int,
                    line_len as int,
                    *theme,
                ),
            ));
            assert(ranges_view(out@) =~= ranges_view(pre_out).add(head));
            assert(ranges_view(pre_out).add(head).add(
                spec_resolve(
                    names_view(stack.scopes@),
                    opsv.skip(j as int),
                    last as int,
                    line_len as int,
                    *theme,
                ),
            ) =~= ranges_view(pre_out).add(
                head.add(
                    spec_resolve(
                        names_view(stack.scopes@),
                        opsv.skip(j as int),
                        last as int,
                        line_len as int,
                        *theme,
                    ),
                ),
            ));
            assert(apply_ops(pre_stack, rem) == apply_ops(
                names_view(stack.scopes@),
                opsv.skip(j as int),
            ));
        }
    }
    proof {
        assert(opsv.skip(j as int) =~= Seq::<(int, SpecOp)>::empty());
    }
    let ghost pre_out = out@;
    if last < line_len {
        let s = style_for(&stack.scopes, theme);
        out.push((last, line_len, s));
        proof {
            assert(ranges_view(out@) =~= ranges_view(pre_out).push(
                (last as int, line_len as int, style_of(names_view(stack.scopes@), *theme)),
            ));
        }
    }
    proof {
        let tailr = spec_resolve(
            names_view(stack.scopes@),
            Seq::<(int, SpecOp)>::empty(),
            last as int,
            line_len as int,
            *theme,
        );
        assert(ranges_view(out@) =~= ranges_view(pre_out).add(tailr));
        assert(apply_ops(names_view(stack.scopes@), Seq::<(int, SpecOp)>::empty()) == names_view(
            stack.scopes@,
        ));
    }
    out
}

} // verus!
