//! The directive state machine: a line-by-line pass that tracks a stack of
//! open conditional blocks, decides which lines are active, substitutes
//! macros into active text, and splices resolved content in place of a
//! splice directive.

use vstd::prelude::*;

use crate::chars::spec_is_define_char;
use crate::expr::{eval, spec_eval, ExprError};
use crate::resolve::{Includes, NoIncludes};
use crate::strscan::{
    before_comment, body_and_term, spec_before_comment, spec_body, spec_lines, spec_starts_with,
    spec_term, spec_trim, split_lines, starts_with_str, str_eq, trim_str,
};
use crate::subst::{defs_view, spec_substitute, substitute};

verus! {

/// Which branch of an `#if` chain has fired so far.
#[derive(Clone, Copy)]
pub enum BranchStatus {
    /// No branch of the chain has been taken yet.
    NotYet,
    /// The branch at the top of the chain is the active one.
    Now,
    /// A branch fired earlier in the chain; the rest of it is dead.
    Already,
}

/// One open conditional block on the stack.
#[derive(Clone, Copy)]
pub enum Block {
    /// An `#if` chain whose enclosing context is active.
    If(BranchStatus),
    /// The `#else` arm of a chain; active only if no earlier branch fired.
    Else { active: bool },
    /// A conditional nested inside an inactive region: its directives are
    /// consumed, its conditions never evaluated.
    InactiveIf,
    /// The marker isolating a spliced stream's blocks from its parent's.
    IncludeBoundary,
}

/// Is the innermost region active? The top block alone decides, because each
/// block's classification already accounts for its parent's state.
pub open spec fn spec_active(stack: Seq<Block>) -> bool {
    if stack.len() == 0 {
        true
    } else {
        match stack.last() {
            Block::IncludeBoundary => true,
            Block::If(st) => st is Now,
            Block::InactiveIf => false,
            Block::Else { active } => active,
        }
    }
}

/// How one processing run fails.
pub enum Error<I> {
    /// A condition held a character that is no token.
    BadExpr(&'static str),
    /// A stray `#elseif`, `#else` or `#endif`.
    UnexpectedDirective(&'static str),
    /// The resolver could not supply the spliced content; its own error.
    Include(I),
    /// The stream ended with an open conditional block.
    UnclosedIf(&'static str),
    /// Splices nested deeper than the implementation limit.
    TooDeep(&'static str),
}

/// The spec-level name of each failure; `spec_err_matches` ties it to the
/// `Error` value the executable code returns.
pub enum Abort<E> {
    BadSymbol,
    BadToken,
    StrayElseif,
    StrayElse,
    StrayEndif,
    Unclosed,
    Resolve(E),
    TooDeep,
}

/// The executable error that each spec-level failure corresponds to,
/// message included.
pub open spec fn spec_err_matches<E>(e: Error<E>, a: Abort<E>) -> bool {
    match a {
        Abort::BadSymbol => e matches Error::BadExpr(m) && m@ == "unexpected symbol"@,
        Abort::BadToken => e matches Error::BadExpr(m) && m@ == "unexpected token"@,
        Abort::StrayElseif => e matches Error::UnexpectedDirective(m) && m@
            == "unexpected #elseif"@,
        Abort::StrayElse => e matches Error::UnexpectedDirective(m) && m@ == "unexpected #else"@,
        Abort::StrayEndif => e matches Error::UnexpectedDirective(m) && m@ == "unexpected #endif"@,
        Abort::Unclosed => e matches Error::UnclosedIf(m) && m@ == "couldn't find matching #endif"@,
        Abort::Resolve(x) => e matches Error::Include(y) && x == y,
        Abort::TooDeep => e matches Error::TooDeep(m) && m@ == "splices nested too deeply"@,
    }
}

/// The directive word that splices another stream, `"#include "`, as
/// characters.
pub open spec fn splice_prefix() -> Seq<char> {
    seq!['#', 'i', 'n', 'c', 'l', 'u', 'd', 'e', ' ']
}

/// The new status of the top `#if` chain when `#elseif` finds it at `st` and
/// its condition (evaluated only from `NotYet`) is `cond`.
pub open spec fn spec_elseif_status(st: BranchStatus, cond: bool) -> BranchStatus {
    match st {
        BranchStatus::NotYet => if cond {
            BranchStatus::Now
        } else {
            BranchStatus::NotYet
        },
        BranchStatus::Now => BranchStatus::Already,
        BranchStatus::Already => BranchStatus::Already,
    }
}

/// Once a branch of a chain has fired, no later `#elseif` arm is ever active
/// again: the status stays `Already`, whatever its condition would say.
pub proof fn lemma_one_branch_elseif(st: BranchStatus, cond: bool)
    requires
        st is Now || st is Already,
    ensures
        spec_elseif_status(st, cond) is Already,
{
}

/// Once a branch of a chain has fired, the `#else` arm is inactive; the
/// `#else` arm is active exactly when no branch fired before it.
pub open spec fn spec_else_block(st: BranchStatus) -> Block {
    match st {
        BranchStatus::NotYet => Block::Else { active: true },
        BranchStatus::Now => Block::Else { active: false },
        BranchStatus::Already => Block::Else { active: false },
    }
}

/// A later `#elseif` arm can only become the active branch if no branch of
/// the chain fired before it and its own condition holds: together with
/// `lemma_one_branch_elseif`, at most one branch of a chain ever fires.
pub proof fn lemma_elseif_activates_only_from_notyet(st: BranchStatus, cond: bool)
    ensures
        spec_elseif_status(st, cond) is Now ==> st is NotYet && cond,
{
}

/// The `#else` arm is active exactly when no branch of its chain fired
/// before it; once a branch has fired, the arm is dead.
pub proof fn lemma_one_branch_else(st: BranchStatus)
    ensures
        (st is Now || st is Already) ==> spec_else_block(st) == (Block::Else { active: false }),
        st is NotYet ==> spec_else_block(st) == (Block::Else { active: true }),
{
}

/// The machine's line loop, from line `li` on, with the open-block stack
/// `stack` and the output written so far `out`. `fuel` bounds how deeply
/// splices may nest. Returns the final output and stack, or the failure.
pub open spec fn spec_run<I: Includes>(
    inc: I,
    ds: Seq<(Seq<char>, Seq<char>)>,
    fuel: nat,
    lines: Seq<Seq<char>>,
    li: int,
    stack: Seq<Block>,
    out: Seq<char>,
) -> Result<(Seq<char>, Seq<Block>), Abort<I::Error>>
    decreases fuel, lines.len() - li, 0int,
{
    if !(0 <= li < lines.len()) {
        Ok((out, stack))
    } else {
        let line = lines[li];
        let term = spec_term(line);
        let bc = spec_before_comment(spec_body(line));
        let t = spec_trim(bc);
        if spec_starts_with(t, "#if "@) {
            if !spec_active(stack) {
                spec_run(inc, ds, fuel, lines, li + 1, stack.push(Block::InactiveIf), out)
            } else {
                match spec_eval(spec_substitute(ds, t.skip(4))) {
                    Err(ExprError::BadSymbol) => Err(Abort::BadSymbol),
                    Err(ExprError::BadToken) => Err(Abort::BadToken),
                    Ok(v) => spec_run(
                        inc,
                        ds,
                        fuel,
                        lines,
                        li + 1,
                        stack.push(
                            Block::If(
                                if v {
                                    BranchStatus::Now
                                } else {
                                    BranchStatus::NotYet
                                },
                            ),
                        ),
                        out,
                    ),
                }
            }
        } else if spec_starts_with(t, "#elseif "@) {
            if stack.len() == 0 {
                Err(Abort::StrayElseif)
            } else {
                match stack.last() {
                    Block::If(st) => if st is NotYet {
                        match spec_eval(spec_substitute(ds, t.skip(8))) {
                            Err(ExprError::BadSymbol) => Err(Abort::BadSymbol),
                            Err(ExprError::BadToken) => Err(Abort::BadToken),
                            Ok(v) => spec_run(
                                inc,
                                ds,
                                fuel,
                                lines,
                                li + 1,
                                stack.update(
                                    stack.len() - 1,
                                    Block::If(spec_elseif_status(st, v)),
                                ),
                                out,
                            ),
                        }
                    } else {
                        spec_run(
                            inc,
                            ds,
                            fuel,
                            lines,
                            li + 1,
                            stack.update(stack.len() - 1, Block::If(spec_elseif_status(st, false))),
                            out,
                        )
                    },
                    Block::InactiveIf => spec_run(inc, ds, fuel, lines, li + 1, stack, out),
                    _ => Err(Abort::StrayElseif),
                }
            }
        } else if t == "#else"@ {
            if stack.len() == 0 {
                Err(Abort::StrayElse)
            } else {
                match stack.last() {
                    Block::If(st) => spec_run(
                        inc,
                        ds,
                        fuel,
                        lines,
                        li + 1,
                        stack.update(stack.len() - 1, spec_else_block(st)),
                        out,
                    ),
                    Block::InactiveIf => spec_run(inc, ds, fuel, lines, li + 1, stack, out),
                    _ => Err(Abort::StrayElse),
                }
            }
        } else if t == "#endif"@ {
            if stack.len() == 0 {
                Err(Abort::StrayEndif)
            } else {
                spec_run(inc, ds, fuel, lines, li + 1, stack.drop_last(), out)
            }
        } else if spec_starts_with(t, splice_prefix()) {
            if !spec_active(stack) {
                spec_run(inc, ds, fuel, lines, li + 1, stack, out)
            } else {
                match inc.resolves(spec_trim(t.skip(9))) {
                    Err(e) => Err(Abort::Resolve(e)),
                    Ok(content) => if fuel == 0 {
                        Err(Abort::TooDeep)
                    } else {
                        match spec_process_lines(
                            inc,
                            ds,
                            (fuel - 1) as nat,
                            spec_lines(content),
                            stack.push(Block::IncludeBoundary),
                            out,
                        ) {
                            Err(a) => Err(a),
                            Ok(p) => spec_run(inc, ds, fuel, lines, li + 1, p.1, p.0 + term),
                        }
                    },
                }
            }
        } else {
            if spec_active(stack) {
                spec_run(inc, ds, fuel, lines, li + 1, stack, out + spec_substitute(ds, bc) + term)
            } else {
                spec_run(inc, ds, fuel, lines, li + 1, stack, out)
            }
        }
    }
}

/// One whole pass over a line stream: the line loop, then the end-of-stream
/// check, which pops the boundary of a spliced stream and rejects any other
/// open block.
pub open spec fn spec_process_lines<I: Includes>(
    inc: I,
    ds: Seq<(Seq<char>, Seq<char>)>,
    fuel: nat,
    lines: Seq<Seq<char>>,
    stack: Seq<Block>,
    out: Seq<char>,
) -> Result<(Seq<char>, Seq<Block>), Abort<I::Error>>
    decreases fuel, lines.len(), 1int,
{
    match spec_run(inc, ds, fuel, lines, 0, stack, out) {
        Err(a) => Err(a),
        Ok(p) => if p.1.len() == 0 {
            Ok(p)
        } else if p.1.last() is IncludeBoundary {
            Ok((p.0, p.1.drop_last()))
        } else {
            Err(Abort::Unclosed)
        },
    }
}

/// The nesting budget is inessential: a run of the line loop that does not
/// fail with `TooDeep` returns the same result under any larger budget.
pub proof fn lemma_fuel_irrelevant_run<I: Includes>(
    inc: I,
    ds: Seq<(Seq<char>, Seq<char>)>,
    f1: nat,
    f2: nat,
    lines: Seq<Seq<char>>,
    li: int,
    stack: Seq<Block>,
    out: Seq<char>,
)
    requires
        f1 <= f2,
        spec_run(inc, ds, f1, lines, li, stack, out) != Err::<
            (Seq<char>, Seq<Block>),
            Abort<I::Error>,
        >(Abort::TooDeep),
    ensures
        spec_run(inc, ds, f2, lines, li, stack, out) == spec_run(inc, ds, f1, lines, li, stack, out),
    decreases f1, lines.len() - li, 0int,
{
    if 0 <= li < lines.len() {
        let line = lines[li];
        let term = spec_term(line);
        let bc = spec_before_comment(spec_body(line));
        let t = spec_trim(bc);
        if spec_starts_with(t, "#if "@) {
            if !spec_active(stack) {
                lemma_fuel_irrelevant_run(
                    inc,
                    ds,
                    f1,
                    f2,
                    lines,
                    li + 1,
                    stack.push(Block::InactiveIf),
                    out,
                );
            } else {
                match spec_eval(spec_substitute(ds, t.skip(4))) {
                    Ok(v) => {
                        let b = Block::If(
                            if v {
                                BranchStatus::Now
                            } else {
                                BranchStatus::NotYet
                            },
                        );
                        lemma_fuel_irrelevant_run(inc, ds, f1, f2, lines, li + 1, stack.push(b), out);
                    },
                    Err(_) => {},
                }
            }
        } else if spec_starts_with(t, "#elseif "@) {
            if stack.len() > 0 {
                match stack.last() {
                    Block::If(st) => if st is NotYet {
                        match spec_eval(spec_substitute(ds, t.skip(8))) {
                            Ok(v) => {
                                lemma_fuel_irrelevant_run(
                                    inc,
                                    ds,
                                    f1,
                                    f2,
                                    lines,
                                    li + 1,
                                    stack.update(
                                        stack.len() - 1,
                                        Block::If(spec_elseif_status(st, v)),
                                    ),
                                    out,
                                );
                            },
                            Err(_) => {},
                        }
                    } else {
                        lemma_fuel_irrelevant_run(
                            inc,
                            ds,
                            f1,
                            f2,
                            lines,
                            li + 1,
                            stack.update(stack.len() - 1, Block::If(spec_elseif_status(st, false))),
                            out,
                        );
                    },
                    Block::InactiveIf => {
                        lemma_fuel_irrelevant_run(inc, ds, f1, f2, lines, li + 1, stack, out);
                    },
                    _ => {},
                }
            }
        } else if t == "#else"@ {
            if stack.len() > 0 {
                match stack.last() {
                    Block::If(st) => {
                        lemma_fuel_irrelevant_run(
                            inc,
                            ds,
                            f1,
                            f2,
                            lines,
                            li + 1,
                            stack.update(stack.len() - 1, spec_else_block(st)),
                            out,
                        );
                    },
                    Block::InactiveIf => {
                        lemma_fuel_irrelevant_run(inc, ds, f1, f2, lines, li + 1, stack, out);
                    },
                    _ => {},
                }
            }
        } else if t == "#endif"@ {
            if stack.len() > 0 {
                lemma_fuel_irrelevant_run(inc, ds, f1, f2, lines, li + 1, stack.drop_last(), out);
            }
        } else if spec_starts_with(t, splice_prefix()) {
            if !spec_active(stack) {
                lemma_fuel_irrelevant_run(inc, ds, f1, f2, lines, li + 1, stack, out);
            } else {
                match inc.resolves(spec_trim(t.skip(9))) {
                    Err(_) => {},
                    Ok(content) => {
                        assert(f1 > 0);
                        let sub1 = spec_process_lines(
                            inc,
                            ds,
                            (f1 - 1) as nat,
                            spec_lines(content),
                            stack.push(Block::IncludeBoundary),
                            out,
                        );
                        assert(sub1 != Err::<(Seq<char>, Seq<Block>), Abort<I::Error>>(
                            Abort::TooDeep,
                        ));
                        lemma_fuel_irrelevant_lines(
                            inc,
                            ds,
                            (f1 - 1) as nat,
                            (f2 - 1) as nat,
                            spec_lines(content),
                            stack.push(Block::IncludeBoundary),
                            out,
                        );
                        match sub1 {
                            Err(_) => {},
                            Ok(p) => {
                                lemma_fuel_irrelevant_run(
                                    inc,
                                    ds,
                                    f1,
                                    f2,
                                    lines,
                                    li + 1,
                                    p.1,
                                    p.0 + term,
                                );
                            },
                        }
                    },
                }
            }
        } else {
            if spec_active(stack) {
                lemma_fuel_irrelevant_run(
                    inc,
                    ds,
                    f1,
                    f2,
                    lines,
                    li + 1,
                    stack,
                    out + spec_substitute(ds, bc) + term,
                );
            } else {
                lemma_fuel_irrelevant_run(inc, ds, f1, f2, lines, li + 1, stack, out);
            }
        }
    }
}

/// The nesting budget is inessential for a whole pass as well.
pub proof fn lemma_fuel_irrelevant_lines<I: Includes>(
    inc: I,
    ds: Seq<(Seq<char>, Seq<char>)>,
    f1: nat,
    f2: nat,
    lines: Seq<Seq<char>>,
    stack: Seq<Block>,
    out: Seq<char>,
)
    requires
        f1 <= f2,
        spec_process_lines(inc, ds, f1, lines, stack, out) != Err::<
            (Seq<char>, Seq<Block>),
            Abort<I::Error>,
        >(Abort::TooDeep),
    ensures
        spec_process_lines(inc, ds, f2, lines, stack, out) == spec_process_lines(
            inc,
            ds,
            f1,
            lines,
            stack,
            out,
        ),
    decreases f1, lines.len(), 1int,
{
    assert(spec_run(inc, ds, f1, lines, 0, stack, out) != Err::<
        (Seq<char>, Seq<Block>),
        Abort<I::Error>,
    >(Abort::TooDeep));
    lemma_fuel_irrelevant_run(inc, ds, f1, f2, lines, 0, stack, out);
}

/// What processing a whole stream returns: output text or failure.
pub open spec fn spec_process<I: Includes>(
    inc: I,
    ds: Seq<(Seq<char>, Seq<char>)>,
    fuel: nat,
    s: Seq<char>,
) -> Result<Seq<char>, Abort<I::Error>> {
    match spec_process_lines(inc, ds, fuel, spec_lines(s), Seq::empty(), Seq::empty()) {
        Err(a) => Err(a),
        Ok(p) => Ok(p.0),
    }
}

/// A conditional that opens inside an inactive region is tracked but dead:
/// the machine pushes `InactiveIf` and the line's condition text is never
/// substituted or evaluated, so a malformed condition there cannot fail the
/// run.
pub proof fn lemma_dead_if_not_evaluated<I: Includes>(
    inc: I,
    ds: Seq<(Seq<char>, Seq<char>)>,
    fuel: nat,
    lines: Seq<Seq<char>>,
    li: int,
    stack: Seq<Block>,
    out: Seq<char>,
)
    requires
        0 <= li < lines.len(),
        spec_starts_with(spec_trim(spec_before_comment(spec_body(lines[li]))), "#if "@),
        !spec_active(stack),
    ensures
        spec_run(inc, ds, fuel, lines, li, stack, out) == spec_run(
            inc,
            ds,
            fuel,
            lines,
            li + 1,
            stack.push(Block::InactiveIf),
            out,
        ),
{
}

/// An `#elseif` arm of a chain that already fired, or inside an inactive
/// region, is dead: the machine updates the chain's status without touching
/// the line's condition text, so a malformed condition there cannot fail
/// the run.
pub proof fn lemma_dead_elseif_not_evaluated<I: Includes>(
    inc: I,
    ds: Seq<(Seq<char>, Seq<char>)>,
    fuel: nat,
    lines: Seq<Seq<char>>,
    li: int,
    stack: Seq<Block>,
    out: Seq<char>,
)
    requires
        0 <= li < lines.len(),
        ({
            let t = spec_trim(spec_before_comment(spec_body(lines[li])));
            !spec_starts_with(t, "#if "@) && spec_starts_with(t, "#elseif "@)
        }),
        stack.len() > 0,
        (stack.last() matches Block::If(st) && !(st is NotYet)) || stack.last() is InactiveIf,
    ensures
        stack.last() matches Block::If(st) ==> spec_run(inc, ds, fuel, lines, li, stack, out)
            == spec_run(
            inc,
            ds,
            fuel,
            lines,
            li + 1,
            stack.update(stack.len() - 1, Block::If(BranchStatus::Already)),
            out,
        ),
        stack.last() is InactiveIf ==> spec_run(inc, ds, fuel, lines, li, stack, out) == spec_run(
            inc,
            ds,
            fuel,
            lines,
            li + 1,
            stack,
            out,
        ),
{
}

/// An active line holding no directive passes through: its text before any
/// comment is emitted with macro substitution applied and its own line
/// terminator kept, and the machine's state does not change.
pub proof fn lemma_plain_line_passthrough<I: Includes>(
    inc: I,
    ds: Seq<(Seq<char>, Seq<char>)>,
    fuel: nat,
    lines: Seq<Seq<char>>,
    li: int,
    stack: Seq<Block>,
    out: Seq<char>,
)
    requires
        0 <= li < lines.len(),
        spec_active(stack),
        ({
            let t = spec_trim(spec_before_comment(spec_body(lines[li])));
            !spec_starts_with(t, "#if "@) && !spec_starts_with(t, "#elseif "@) && t != "#else"@
                && t != "#endif"@ && !spec_starts_with(t, splice_prefix())
        }),
    ensures
        spec_run(inc, ds, fuel, lines, li, stack, out) == spec_run(
            inc,
            ds,
            fuel,
            lines,
            li + 1,
            stack,
            out + spec_substitute(ds, spec_before_comment(spec_body(lines[li]))) + spec_term(
                lines[li],
            ),
        ),
{
}

/// Splicing: on an active splice line, a resolver failure aborts the whole
/// run carrying the resolver's own error, with no output from that line; on
/// success the content's processed output takes the line's place, followed
/// by the line's own terminator.
pub proof fn lemma_splice_line<I: Includes>(
    inc: I,
    ds: Seq<(Seq<char>, Seq<char>)>,
    fuel: nat,
    lines: Seq<Seq<char>>,
    li: int,
    stack: Seq<Block>,
    out: Seq<char>,
)
    requires
        0 <= li < lines.len(),
        spec_active(stack),
        fuel > 0,
        ({
            let t = spec_trim(spec_before_comment(spec_body(lines[li])));
            !spec_starts_with(t, "#if "@) && !spec_starts_with(t, "#elseif "@) && t != "#else"@
                && t != "#endif"@ && spec_starts_with(t, splice_prefix())
        }),
    ensures
        ({
            let t = spec_trim(spec_before_comment(spec_body(lines[li])));
            match inc.resolves(spec_trim(t.skip(9))) {
                Err(e) => spec_run(inc, ds, fuel, lines, li, stack, out) == Err::<
                    (Seq<char>, Seq<Block>),
                    Abort<I::Error>,
                >(Abort::Resolve(e)),
                Ok(content) => spec_run(inc, ds, fuel, lines, li, stack, out) == match
                    spec_process_lines(
                    inc,
                    ds,
                    (fuel - 1) as nat,
                    spec_lines(content),
                    stack.push(Block::IncludeBoundary),
                    out,
                ) {
                    Err(a) => Err(a),
                    Ok(p) => spec_run(
                        inc,
                        ds,
                        fuel,
                        lines,
                        li + 1,
                        p.1,
                        p.0 + spec_term(lines[li]),
                    ),
                },
            }
        }),
{
}

/// A valid macro name: a letter or `_`, then letters, digits or `_`.
pub open spec fn spec_is_define_name(s: Seq<char>) -> bool {
    s.len() >= 1 && (('a' <= s[0] && s[0] <= 'z') || ('A' <= s[0] && s[0] <= 'Z') || s[0] == '_')
        && (forall|i: int| 1 <= i < s.len() ==> spec_is_define_char(s[i]))
}

/// The processing context: the macro table and the splice resolver. Both are
/// owned by the caller for the whole run.
pub struct Context<I> {
    macros: Vec<(String, String)>,
    includes: I,
}

impl<I> Context<I> {
    /// The macro definitions, in definition order, as a mathematical value.
    pub closed spec fn macro_defs(self) -> Seq<(Seq<char>, Seq<char>)> {
        defs_view(self.macros@)
    }

    /// The resolver the context carries.
    pub closed spec fn resolver(self) -> I {
        self.includes
    }

    /// A context around the given resolver, with no macros defined.
    pub fn new_with(includes: I) -> (r: Context<I>)
        ensures
            r.macro_defs() =~= Seq::<(Seq<char>, Seq<char>)>::empty(),
            r.resolver() == includes,
    {
        Context { macros: Vec::new(), includes }
    }

    /// Define (or redefine) the macro `def` as `val`. The name must be a
    /// valid macro name.
    pub fn define(&mut self, def: &str, val: &str)
        requires
            spec_is_define_name(def@),
        ensures
            final(self).resolver() == old(self).resolver(),
            final(self).macro_defs() =~= old(self).macro_defs().push((def@, val@)),
    {
        let d = String::from_str(def);
        let v = String::from_str(val);
        self.macros.push((d, v));
    }
}

impl Context<NoIncludes> {
    /// A context that refuses splicing, with no macros defined.
    pub fn new() -> (r: Context<NoIncludes>)
        ensures
            r.macro_defs() =~= Seq::<(Seq<char>, Seq<char>)>::empty(),
            r.resolver() == NoIncludes,
    {
        Context::new_with(NoIncludes)
    }
}

/// Is the innermost region active?
fn stack_active(stack: &Vec<Block>) -> (r: bool)
    ensures
        r == spec_active(stack@),
{
    if stack.len() == 0 {
        true
    } else {
        let top = stack[stack.len() - 1];
        proof {
            assert(stack@.last() == stack@[stack@.len() - 1]);
        }
        match top {
            Block::IncludeBoundary => true,
            Block::If(BranchStatus::Now) => true,
            Block::If(_) => false,
            Block::InactiveIf => false,
            Block::Else { active } => active,
        }
    }
}

/// One whole pass over `lines`: executes `spec_process_lines` exactly,
/// appending to `out` and leaving the final block stack in `stack`.
fn process_lines<I: Includes>(
    inc: &I,
    macros: &Vec<(String, String)>,
    fuel: usize,
    lines: &Vec<String>,
    stack: &mut Vec<Block>,
    out: &mut String,
) -> (r: Result<(), Error<I::Error>>)
    ensures
        match r {
            Ok(_) => spec_process_lines(
                *inc,
                defs_view(macros@),
                fuel as nat,
                lines.deep_view(),
                old(stack)@,
                old(out)@,
            ) == Ok::<(Seq<char>, Seq<Block>), Abort<I::Error>>((final(out)@, final(stack)@)),
            Err(e) => spec_process_lines(
                *inc,
                defs_view(macros@),
                fuel as nat,
                lines.deep_view(),
                old(stack)@,
                old(out)@,
            ) matches Err(a) && spec_err_matches(e, a),
        },
    decreases fuel,
{
    let ghost ds = defs_view(macros@);
    let ghost lv = lines.deep_view();
    let ghost st0 = old(stack)@;
    let ghost o0 = old(out)@;
    let n = lines.len();
    let mut li: usize = 0;
    while li < n
        invariant
            li <= n,
            n == lines@.len(),
            ds == defs_view(macros@),
            lv == lines.deep_view(),
            st0 == old(stack)@,
            o0 == old(out)@,
            spec_run(*inc, ds, fuel as nat, lv, 0, st0, o0) == spec_run(
                *inc,
                ds,
                fuel as nat,
                lv,
                li as int,
                stack@,
                out@,
            ),
        decreases n - li,
    {
        let ghost st_it = stack@;
        let ghost o_it = out@;
        let line: &String = &lines[li];
        proof {
            assert(lv[li as int] == lines@[li as int]@);
        }
        let ghost tl = lv[li as int];
        let bt = body_and_term(line.as_str());
        let body = bt.0;
        let term = bt.1;
        let bc = before_comment(body);
        let t = trim_str(bc);
        let tn = t.unicode_len();
        let mut sp = String::new();
        sp.append("#i");
        sp.append("nclude ");
        proof {
            reveal_strlit("#i");
            reveal_strlit("nclude ");
            reveal_strlit("#if ");
            reveal_strlit("#elseif ");
            reveal_strlit("#else");
            reveal_strlit("#endif");
            assert(sp@ =~= splice_prefix());
            assert(t@ == spec_trim(spec_before_comment(spec_body(tl))));
        }
        if starts_with_str(t, "#if ") {
            let active = stack_active(stack);
            if !active {
                stack.push(Block::InactiveIf);
                proof {
                    assert(spec_run(*inc, ds, fuel as nat, lv, li as int, st_it, o_it)
                        == spec_run(*inc, ds, fuel as nat, lv, li + 1, stack@, out@));
                }
            } else {
                let cond = substitute(macros, t.substring_char(4, tn));
                proof {
                    assert(t@.subrange(4, tn as int) =~= t@.skip(4));
                }
                match eval(cond.as_str()) {
                    Err(ExprError::BadSymbol) => {
                        return Err(Error::BadExpr("unexpected symbol"));
                    },
                    Err(ExprError::BadToken) => {
                        return Err(Error::BadExpr("unexpected token"));
                    },
                    Ok(v) => {
                        let b = if v {
                            Block::If(BranchStatus::Now)
                        } else {
                            Block::If(BranchStatus::NotYet)
                        };
                        stack.push(b);
                        proof {
                            assert(spec_run(*inc, ds, fuel as nat, lv, li as int, st_it, o_it)
                                == spec_run(*inc, ds, fuel as nat, lv, li + 1, stack@, out@));
                        }
                    },
                }
            }
        } else if starts_with_str(t, "#elseif ") {
            let popped = stack.pop();
            match popped {
                None => {
                    return Err(Error::UnexpectedDirective("unexpected #elseif"));
                },
                Some(Block::If(st)) => {
                    match st {
                        BranchStatus::NotYet => {
                            let cond = substitute(macros, t.substring_char(8, tn));
                            proof {
                                assert(t@.subrange(8, tn as int) =~= t@.skip(8));
                            }
                            match eval(cond.as_str()) {
                                Err(ExprError::BadSymbol) => {
                                    return Err(Error::BadExpr("unexpected symbol"));
                                },
                                Err(ExprError::BadToken) => {
                                    return Err(Error::BadExpr("unexpected token"));
                                },
                                Ok(v) => {
                                    let b = if v {
                                        Block::If(BranchStatus::Now)
                                    } else {
                                        Block::If(BranchStatus::NotYet)
                                    };
                                    stack.push(b);
                                    proof {
                                        assert(stack@ =~= st_it.update(
                                            st_it.len() - 1,
                                            Block::If(spec_elseif_status(st, v)),
                                        ));
                                        assert(spec_run(
                                            *inc,
                                            ds,
                                            fuel as nat,
                                            lv,
                                            li as int,
                                            st_it,
                                            o_it,
                                        ) == spec_run(*inc, ds, fuel as nat, lv, li + 1, stack@, out@));
                                    }
                                },
                            }
                        },
                        _ => {
                            stack.push(Block::If(BranchStatus::Already));
                            proof {
                                assert(stack@ =~= st_it.update(
                                    st_it.len() - 1,
                                    Block::If(spec_elseif_status(st, false)),
                                ));
                                assert(spec_run(*inc, ds, fuel as nat, lv, li as int, st_it, o_it)
                                    == spec_run(*inc, ds, fuel as nat, lv, li + 1, stack@, out@));
                            }
                        },
                    }
                },
                Some(Block::InactiveIf) => {
                    stack.push(Block::InactiveIf);
                    proof {
                        assert(stack@ =~= st_it);
                        assert(spec_run(*inc, ds, fuel as nat, lv, li as int, st_it, o_it)
                            == spec_run(*inc, ds, fuel as nat, lv, li + 1, stack@, out@));
                    }
                },
                Some(_) => {
                    return Err(Error::UnexpectedDirective("unexpected #elseif"));
                },
            }
        } else if str_eq(t, "#else") {
            let popped = stack.pop();
            match popped {
                None => {
                    return Err(Error::UnexpectedDirective("unexpected #else"));
                },
                Some(Block::If(st)) => {
                    let b = match st {
                        BranchStatus::NotYet => Block::Else { active: true },
                        _ => Block::Else { active: false },
                    };
                    stack.push(b);
                    proof {
                        assert(stack@ =~= st_it.update(st_it.len() - 1, spec_else_block(st)));
                        assert(spec_run(*inc, ds, fuel as nat, lv, li as int, st_it, o_it)
                            == spec_run(*inc, ds, fuel as nat, lv, li + 1, stack@, out@));
                    }
                },
                Some(Block::InactiveIf) => {
                    stack.push(Block::InactiveIf);
                    proof {
                        assert(stack@ =~= st_it);
                        assert(spec_run(*inc, ds, fuel as nat, lv, li as int, st_it, o_it)
                            == spec_run(*inc, ds, fuel as nat, lv, li + 1, stack@, out@));
                    }
                },
                Some(_) => {
                    return Err(Error::UnexpectedDirective("unexpected #else"));
                },
            }
        } else if str_eq(t, "#endif") {
            let popped = stack.pop();
            match popped {
                None => {
                    return Err(Error::UnexpectedDirective("unexpected #endif"));
                },
                Some(_) => {
                    proof {
                        assert(stack@ =~= st_it.drop_last());
                        assert(spec_run(*inc, ds, fuel as nat, lv, li as int, st_it, o_it)
                            == spec_run(*inc, ds, fuel as nat, lv, li + 1, stack@, out@));
                    }
                },
            }
        } else if starts_with_str(t, sp.as_str()) {
            let active = stack_active(stack);
            if active {
                let path = trim_str(t.substring_char(9, tn));
                proof {
                    assert(t@.subrange(9, tn as int) =~= t@.skip(9));
                }
                match inc.find_content(path) {
                    Err(e) => {
                        return Err(Error::Include(e));
                    },
                    Ok(content) => {
                        if fuel == 0 {
                            return Err(Error::TooDeep("splices nested too deeply"));
                        }
                        let content_lines = split_lines(content.as_str());
                        stack.push(Block::IncludeBoundary);
                        match process_lines(inc, macros, fuel - 1, &content_lines, stack, out) {
                            Err(e) => {
                                return Err(e);
                            },
                            Ok(_) => {
                                out.append(term);
                                proof {
                                    assert(spec_run(
                                        *inc,
                                        ds,
                                        fuel as nat,
                                        lv,
                                        li as int,
                                        st_it,
                                        o_it,
                                    ) == spec_run(*inc, ds, fuel as nat, lv, li + 1, stack@, out@));
                                }
                            },
                        }
                    },
                }
            } else {
                proof {
                    assert(spec_run(*inc, ds, fuel as nat, lv, li as int, st_it, o_it)
                        == spec_run(*inc, ds, fuel as nat, lv, li + 1, stack@, out@));
                }
            }
        } else {
            let active = stack_active(stack);
            if active {
                let sub = substitute(macros, bc);
                out.append(sub.as_str());
                out.append(term);
                proof {
                    assert(out@ =~= o_it + spec_substitute(ds, spec_before_comment(spec_body(tl)))
                        + spec_term(tl));
                    assert(spec_run(*inc, ds, fuel as nat, lv, li as int, st_it, o_it)
                        == spec_run(*inc, ds, fuel as nat, lv, li + 1, stack@, out@));
                }
            } else {
                proof {
                    assert(spec_run(*inc, ds, fuel as nat, lv, li as int, st_it, o_it)
                        == spec_run(*inc, ds, fuel as nat, lv, li + 1, stack@, out@));
                }
            }
        }
        li = li + 1;
    }
    proof {
        assert(spec_run(*inc, ds, fuel as nat, lv, li as int, stack@, out@) == Ok::<
            (Seq<char>, Seq<Block>),
            Abort<I::Error>,
        >((out@, stack@)));
    }
    let popped = stack.pop();
    match popped {
        None => Ok(()),
        Some(Block::IncludeBoundary) => Ok(()),
        Some(b) => {
            stack.push(b);
            Err(Error::UnclosedIf("couldn't find matching #endif"))
        },
    }
}

/// Process a whole text: expand macros on active lines, follow the
/// conditional directives, splice resolved content. Returns the rewritten
/// text, or the first failure with nothing of the output. Splices may nest
/// to the pointer-width depth; a run that somehow exceeds it fails with
/// `TooDeep`.
pub fn process_str<I: Includes>(s: &str, ctx: &mut Context<I>) -> (r: Result<
    String,
    Error<I::Error>,
>)
    ensures
        *final(ctx) == *old(ctx),
        match r {
            Ok(out) => spec_process(
                old(ctx).resolver(),
                old(ctx).macro_defs(),
                usize::MAX as nat,
                s@,
            ) == Ok::<Seq<char>, Abort<I::Error>>(out@),
            Err(e) => spec_process(
                old(ctx).resolver(),
                old(ctx).macro_defs(),
                usize::MAX as nat,
                s@,
            ) matches Err(a) && spec_err_matches(e, a),
        },
{
    let lines = split_lines(s);
    let mut stack: Vec<Block> = Vec::new();
    let mut out = String::new();
    let r = process_lines(&ctx.includes, &ctx.macros, usize::MAX, &lines, &mut stack, &mut out);
    match r {
        Ok(_) => Ok(out),
        Err(e) => Err(e),
    }
}

} // verus!
