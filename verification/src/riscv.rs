//! Stack-machine code generation: lowers a validated program to RISC-V
//! RV32IM assembly text with explicit frame layout, accumulator-plus-spill
//! expression evaluation, and label-based control flow.
use vstd::prelude::*;

use crate::ast::BinOp;
use crate::ast::Expression;
use crate::ast::SpecExpr;
use crate::ast::Function;
use crate::ast::Parameter;
use crate::ast::Program;
use crate::ast::SpecFunction;
use crate::ast::SpecParameter;
use crate::ast::SpecStmt;
use crate::ast::Statement;
use crate::ast::Type;
use crate::ast::lemma_view_block_len;
use crate::ast::view_block;
use crate::ast::view_params;
use crate::context::CodeGenContext;
use crate::context::SpecCtx;
use crate::context::assoc_lookup;
use crate::context::spec_add_string;
use crate::numerals::dec_i64;
use crate::numerals::dec_u128;
use crate::numerals::spec_dec_i;
use crate::numerals::spec_dec_u;
use crate::semantic::spec_type_name;

verus! {

/// The source keyword of a type.
pub fn type_to_string(var_type: &Type) -> (r: &'static str)
    ensures
        r@ == spec_type_name(*var_type),
{
    match var_type {
        Type::Based => "based",
        Type::Chill => "chill",
        Type::Chad => "chad",
        Type::SuperBased => "superBased",
        Type::Vibes => "vibes",
        Type::Void => "ghost",
    }
}

/// The larger of two depths.
pub open spec fn max64(a: u64, b: u64) -> u64 {
    if a >= b {
        a
    } else {
        b
    }
}

/// The nesting depth of binary operations in an expression: each level
/// costs one four-byte spill slot at run time.  Saturates at the top of
/// `u64`, unreachable for any tree that fits in memory.
pub open spec fn spec_expr_depth(e: SpecExpr) -> u64
    decreases e,
{
    match e {
        SpecExpr::BinOp { left, op, right } => {
            let m = max64(spec_expr_depth(*left), spec_expr_depth(*right));
            if m == u64::MAX {
                u64::MAX
            } else {
                (m + 1) as u64
            }
        },
        _ => 0,
    }
}

/// The maximum expression depth across one statement, descending into
/// nested bodies and both loop sub-statements.
pub open spec fn spec_stmt_depth(s: SpecStmt) -> u64
    decreases s, 0int,
{
    match s {
        SpecStmt::VarDecl { value, .. } => spec_expr_depth(value),
        SpecStmt::Assignment { value, .. } => spec_expr_depth(value),
        SpecStmt::Print { expr } => spec_expr_depth(expr),
        SpecStmt::Return { expr } => match expr {
            Some(e) => spec_expr_depth(e),
            None => 0,
        },
        SpecStmt::Break => 0,
        SpecStmt::If { condition, then_body, else_body } => {
            let c = spec_expr_depth(condition);
            let t = spec_block_depth(then_body);
            let e = match else_body {
                Some(b) => spec_block_depth(b),
                None => 0,
            };
            max64(max64(c, t), e)
        },
        SpecStmt::While { condition, body } => max64(
            spec_expr_depth(condition),
            spec_block_depth(body),
        ),
        SpecStmt::For { init, condition, increment, body } => max64(
            max64(spec_stmt_depth(*init), spec_expr_depth(condition)),
            max64(spec_stmt_depth(*increment), spec_block_depth(body)),
        ),
    }
}

/// The maximum expression depth across a statement sequence.
pub open spec fn spec_block_depth(ss: Seq<SpecStmt>) -> u64
    decreases ss, 1int,
{
    if ss.len() == 0 {
        0
    } else {
        max64(spec_stmt_depth(ss.first()), spec_block_depth(ss.drop_first()))
    }
}

/// The worst-case expression-evaluation depth of a body, plus a fixed
/// safety margin of four slots.
pub open spec fn spec_estimated_depth(ss: Seq<SpecStmt>) -> u64 {
    if spec_block_depth(ss) > u64::MAX - 4 {
        u64::MAX
    } else {
        (spec_block_depth(ss) + 4) as u64
    }
}

/// How many top-level statements of a body are variable declarations;
/// nested bodies are deliberately not counted (their declarations still
/// get offsets when visited, beyond the precomputed frame area).
pub open spec fn spec_count_locals(ss: Seq<SpecStmt>) -> int
    decreases ss,
{
    if ss.len() == 0 {
        0int
    } else {
        (if ss.first() is VarDecl {
            1int
        } else {
            0int
        }) + spec_count_locals(ss.drop_first())
    }
}

/// Counted locals are never negative and never exceed the body length.
pub proof fn lemma_count_locals_bounds(ss: Seq<SpecStmt>)
    ensures
        0 <= spec_count_locals(ss) <= ss.len(),
    decreases ss,
{
    if ss.len() > 0 {
        lemma_count_locals_bounds(ss.drop_first());
    }
}

/// Total frame size in bytes: one word per counted local and parameter,
/// one word for the return address, and one word per estimated expression
/// slot.
pub open spec fn spec_total_stack(f: SpecFunction) -> int {
    (spec_count_locals(f.body) + f.parameters.len()) * 4 + 4 + spec_estimated_depth(f.body) * 4
}

/// The combining instructions of a binary operator: arithmetic maps to the
/// matching instruction with operand order preserved; equality tests the
/// difference for zero; relational operators use signed-less-than, the
/// non-strict forms by complementing the opposite strict comparison.
pub open spec fn spec_op_text(op: BinOp) -> Seq<char> {
    match op {
        BinOp::Add => "  add a0, a1, a0\n"@,
        BinOp::Sub => "  sub a0, a1, a0\n"@,
        BinOp::Div => "  div a0, a1, a0\n"@,
        BinOp::Mul => "  mul a0, a1, a0\n"@,
        BinOp::Equal => "  sub a0, a1, a0\n  seqz a0, a0\n"@,
        BinOp::NotEqual => "  sub a0, a1, a0\n  snez a0, a0\n"@,
        BinOp::Less => "  slt a0, a1, a0\n"@,
        BinOp::Greater => "  slt a0, a0, a1\n"@,
        BinOp::GreaterEq => "  slt a0, a1, a0\n  xori a0, a0, 1\n"@,
        BinOp::LessEq => "  slt a0, a0, a1\n  xori a0, a0, 1\n"@,
    }
}

/// The text an expression lowers to, and the context after, or an error.
/// Every expression leaves its value in the accumulator a0; a binary
/// operation evaluates its left operand, spills it, evaluates the right
/// operand, reloads the left into a1 and combines.  Wide integer literals
/// are truncated to 32 bits; floating literals are refused.
pub open spec fn spec_gen_expr(e: SpecExpr, c: SpecCtx) -> Result<(Seq<char>, SpecCtx), Seq<char>>
    decreases e,
{
    match e {
        SpecExpr::Integer(n) => Ok(("  li a0, "@ + spec_dec_i(n as int) + "\n"@, c)),
        SpecExpr::Long(n) => Ok(("  li a0, "@ + spec_dec_i((n as i32) as int) + "\n"@, c)),
        SpecExpr::Float(_) => Err("Floating-point literals are not supported by the code generator"@),
        SpecExpr::CharLit(ch) => Ok(("  li a0, "@ + spec_dec_u(ch as int) + "\n"@, c)),
        SpecExpr::StringLit(s) => {
            let (label, c2) = spec_add_string(c, s);
            Ok(("  la a0, "@ + label + "\n"@, c2))
        },
        SpecExpr::Variable(n) => match assoc_lookup(c.vars, n) {
            Some(off) => Ok(("  lw a0, "@ + spec_dec_u(off as int) + "(s0)\n"@, c)),
            None => Err("Variable '"@ + n + "' not found"@),
        },
        SpecExpr::BinOp { left, op, right } => match spec_gen_expr(*left, c) {
            Ok((lt, c1)) => match spec_gen_expr(*right, c1) {
                Ok((rt, c2)) => Ok(
                    (
                        lt + "  addi sp, sp, -4\n  sw a0, 0(sp)\n"@ + rt
                            + "  lw a1, 0(sp)\n  addi sp, sp, 4\n"@ + spec_op_text(op),
                        c2,
                    ),
                ),
                Err(m) => Err(m),
            },
            Err(m) => Err(m),
        },
    }
}

/// The nesting depth of binary operations in an expression.
fn expr_depth(expr: &Expression) -> (r: u64)
    ensures
        r == spec_expr_depth(expr@),
    decreases expr,
{
    match expr {
        Expression::BinOp { left, op, right } => {
            let l = expr_depth(left);
            let r = expr_depth(right);
            let m = if l >= r {
                l
            } else {
                r
            };
            if m == u64::MAX {
                u64::MAX
            } else {
                m + 1
            }
        },
        _ => 0,
    }
}

/// The maximum expression depth across one statement.
fn statement_expr_depth(stmt: &Statement) -> (r: u64)
    ensures
        r == spec_stmt_depth(stmt@),
    decreases stmt, 0int, 0int,
{
    match stmt {
        Statement::VarDecl { value, .. } => expr_depth(value),
        Statement::Assignment { value, .. } => expr_depth(value),
        Statement::Print { expr } => expr_depth(expr),
        Statement::Return { expr } => match expr {
            Some(e) => expr_depth(e),
            None => 0,
        },
        Statement::Break => 0,
        Statement::If { condition, then_body, else_body } => {
            let c = expr_depth(condition);
            let t = block_depth_from(then_body, 0);
            let e = match else_body {
                Some(b) => block_depth_from(b, 0),
                None => 0,
            };
            proof {
                assert(view_block(then_body@).skip(0) =~= view_block(then_body@));
                match else_body {
                    Some(b) => {
                        assert(view_block(b@).skip(0) =~= view_block(b@));
                    },
                    None => {},
                }
            }
            let ct = if c >= t {
                c
            } else {
                t
            };
            if ct >= e {
                ct
            } else {
                e
            }
        },
        Statement::While { condition, body } => {
            let c = expr_depth(condition);
            let b = block_depth_from(body, 0);
            proof {
                assert(view_block(body@).skip(0) =~= view_block(body@));
            }
            if c >= b {
                c
            } else {
                b
            }
        },
        Statement::For { init, condition, increment, body } => {
            let a = statement_expr_depth(init);
            let c = expr_depth(condition);
            let ac = if a >= c {
                a
            } else {
                c
            };
            let n = statement_expr_depth(increment);
            let b = block_depth_from(body, 0);
            proof {
                assert(view_block(body@).skip(0) =~= view_block(body@));
            }
            let nb = if n >= b {
                n
            } else {
                b
            };
            if ac >= nb {
                ac
            } else {
                nb
            }
        },
    }
}

/// The maximum expression depth across the statements from `from` on.
fn block_depth_from(stmts: &Vec<Statement>, from: usize) -> (r: u64)
    requires
        from <= stmts@.len(),
    ensures
        r == spec_block_depth(view_block(stmts@).skip(from as int)),
    decreases stmts@, stmts@.len() - from, 1int,
{
    let ghost bs = view_block(stmts@);
    proof {
        lemma_view_block_len(stmts@);
    }
    if from >= stmts.len() {
        proof {
            assert(bs.skip(from as int) =~= Seq::<SpecStmt>::empty());
        }
        return 0;
    }
    proof {
        assert(bs.skip(from as int).first() == bs[from as int]);
        assert(bs.skip(from as int).drop_first() =~= bs.skip(from as int + 1));
        assert(decreases_to!(stmts@ => stmts@[from as int]));
    }
    let h = statement_expr_depth(&stmts[from]);
    let t = block_depth_from(stmts, from + 1);
    if h >= t {
        h
    } else {
        t
    }
}

/// The worst-case expression depth of a body plus the fixed margin of
/// four spill slots.
fn estimate_max_expression_depth(stmts: &Vec<Statement>) -> (r: u64)
    ensures
        r == spec_estimated_depth(view_block(stmts@)),
{
    let d = block_depth_from(stmts, 0);
    proof {
        assert(view_block(stmts@).skip(0) =~= view_block(stmts@));
    }
    if d > u64::MAX - 4 {
        u64::MAX
    } else {
        d + 4
    }
}

/// Counts the top-level variable declarations of a body.
fn count_local_vars(stmts: &Vec<Statement>) -> (r: usize)
    ensures
        r == spec_count_locals(view_block(stmts@)),
{
    let ghost bs = view_block(stmts@);
    proof {
        lemma_view_block_len(stmts@);
        assert(bs.skip(0) =~= bs);
    }
    let n = stmts.len();
    let mut count: usize = 0;
    let mut i: usize = 0;
    while i < n
        invariant
            i <= n,
            count <= i,
            n == stmts@.len(),
            bs == view_block(stmts@),
            bs.len() == n,
            forall|j: int| 0 <= j < n ==> bs[j] == crate::ast::view_stmt(#[trigger] stmts@[j]),
            count + spec_count_locals(bs.skip(i as int)) == spec_count_locals(bs),
        decreases n - i,
    {
        proof {
            assert(bs.skip(i as int).first() == bs[i as int]);
            assert(bs.skip(i as int).drop_first() =~= bs.skip(i as int + 1));
            lemma_count_locals_bounds(bs.skip(i as int + 1));
        }
        if (matches!(&stmts[i], Statement::VarDecl { .. })) {
            count = count + 1;
        }
        i = i + 1;
    }
    proof {
        assert(bs.skip(n as int) =~= Seq::<SpecStmt>::empty());
    }
    count
}

/// Lowers one expression into the accumulator, appending its text.
fn generate_expression(
    output: &mut String,
    ctx: &mut CodeGenContext,
    expr: &Expression,
) -> (r: Result<(), String>)
    ensures
        ({
            let sp = spec_gen_expr(expr@, old(ctx)@);
            &&& (r is Ok ==> sp is Ok && final(output)@ == old(output)@ + sp->Ok_0.0
                && final(ctx)@ == sp->Ok_0.1)
            &&& (r is Err ==> sp is Err && r->Err_0@ == sp->Err_0)
        }),
    decreases expr,
{
    match expr {
        Expression::Integer(n) => {
            output.append("  li a0, ");
            let d = dec_i64(*n as i64);
            output.append(d.as_str());
            output.append("\n");
            proof {
                assert(final(output)@ =~= old(output)@ + ("  li a0, "@ + spec_dec_i(*n as int)
                    + "\n"@));
            }
            Ok(())
        },
        Expression::Long(n) => {
            output.append("  li a0, ");
            #[verifier::truncate]
            let narrowed = *n as i32;
            let d = dec_i64(narrowed as i64);
            output.append(d.as_str());
            output.append("\n");
            proof {
                assert(final(output)@ =~= old(output)@ + ("  li a0, "@ + spec_dec_i(
                    ((*n as i32) as int),
                ) + "\n"@));
            }
            Ok(())
        },
        Expression::Float(_) => Err(
            String::from_str("Floating-point literals are not supported by the code generator"),
        ),
        Expression::CharLit(c) => {
            output.append("  li a0, ");
            let d = dec_u128((*c as u32) as u128);
            output.append(d.as_str());
            output.append("\n");
            proof {
                assert(final(output)@ =~= old(output)@ + ("  li a0, "@ + spec_dec_u(*c as int)
                    + "\n"@));
            }
            Ok(())
        },
        Expression::StringLit(s) => {
            let label = ctx.add_string_literal(s.clone());
            output.append("  la a0, ");
            output.append(label.as_str());
            output.append("\n");
            proof {
                assert(final(output)@ =~= old(output)@ + ("  la a0, "@ + spec_add_string(
                    old(ctx)@,
                    s@,
                ).0 + "\n"@));
            }
            Ok(())
        },
        Expression::Variable(name) => {
            let offset = match ctx.get_variable_offset(name.as_str()) {
                Some(o) => o,
                None => {
                    let mut m = String::from_str("Variable '");
                    m.append(name.as_str());
                    m.append("' not found");
                    return Err(m);
                },
            };
            output.append("  lw a0, ");
            let d = dec_u128(offset as u128);
            output.append(d.as_str());
            output.append("(s0)\n");
            proof {
                assert(final(output)@ =~= old(output)@ + ("  lw a0, "@ + spec_dec_u(offset as int)
                    + "(s0)\n"@));
            }
            Ok(())
        },
        Expression::BinOp { left, op, right } => {
            match generate_expression(output, ctx, left) {
                Ok(_) => {},
                Err(m) => {
                    return Err(m);
                },
            }
            output.append("  addi sp, sp, -4\n  sw a0, 0(sp)\n");
            match generate_expression(output, ctx, right) {
                Ok(_) => {},
                Err(m) => {
                    return Err(m);
                },
            }
            output.append("  lw a1, 0(sp)\n  addi sp, sp, 4\n");
            output.append(op_text(op));
            proof {
                let sp = spec_gen_expr(expr@, old(ctx)@);
                let lt = spec_gen_expr(left@, old(ctx)@)->Ok_0.0;
                let c1 = spec_gen_expr(left@, old(ctx)@)->Ok_0.1;
                let rt = spec_gen_expr(right@, c1)->Ok_0.0;
                assert(final(output)@ =~= old(output)@ + (lt + "  addi sp, sp, -4\n  sw a0, 0(sp)\n"@
                    + rt + "  lw a1, 0(sp)\n  addi sp, sp, 4\n"@ + spec_op_text(*op)));
            }
            Ok(())
        },
    }
}

/// The combining instructions of a binary operator.
fn op_text(operator: &BinOp) -> (r: &'static str)
    ensures
        r@ == spec_op_text(*operator),
{
    match operator {
        BinOp::Add => "  add a0, a1, a0\n",
        BinOp::Sub => "  sub a0, a1, a0\n",
        BinOp::Div => "  div a0, a1, a0\n",
        BinOp::Mul => "  mul a0, a1, a0\n",
        BinOp::Equal => "  sub a0, a1, a0\n  seqz a0, a0\n",
        BinOp::NotEqual => "  sub a0, a1, a0\n  snez a0, a0\n",
        BinOp::Less => "  slt a0, a1, a0\n",
        BinOp::Greater => "  slt a0, a0, a1\n",
        BinOp::GreaterEq => "  slt a0, a1, a0\n  xori a0, a0, 1\n",
        BinOp::LessEq => "  slt a0, a0, a1\n  xori a0, a0, 1\n",
    }
}

/// The string-vs-integer print helper choice: structural, decided at
/// generation time — a literal string, or a variable whose recorded type
/// is the string type, selects the string helper; every other expression
/// shape selects the integer helper.
pub open spec fn spec_prints_string(e: SpecExpr, c: SpecCtx) -> bool {
    match e {
        SpecExpr::StringLit(_) => true,
        SpecExpr::Variable(n) => match assoc_lookup(c.var_types, n) {
            Some(t) => t == Type::Vibes,
            None => false,
        },
        _ => false,
    }
}

/// The labels of a while-loop and the context its condition and body are
/// generated under: a fresh start label and exit label, the exit label
/// pushed as the innermost entry of the loop-label stack.
#[verifier::inline]
pub open spec fn spec_while_labels(c: SpecCtx) -> (SpecCtx, Seq<char>, Seq<char>) {
    let (start_label, c1) = crate::context::spec_generate_label(c, ".Lwhile_start"@);
    let (end_label, c2) = crate::context::spec_generate_label(c1, ".Lwhile_end"@);
    (SpecCtx { loop_stack: c2.loop_stack.push(end_label), ..c2 }, start_label, end_label)
}

/// The context with the innermost loop closed.
pub open spec fn spec_pop_loop(c: SpecCtx) -> SpecCtx {
    if c.loop_stack.len() > 0 {
        SpecCtx { loop_stack: c.loop_stack.drop_last(), ..c }
    } else {
        c
    }
}

/// The text one statement lowers to, and the context after, or an error.
/// The only generation-time errors are an undeclared variable and a
/// `break` outside any loop; both indicate a gap earlier in the pipeline.
pub open spec fn spec_gen_stmt(s: SpecStmt, c: SpecCtx) -> Result<(Seq<char>, SpecCtx), Seq<char>>
    decreases s, 0int,
{
    match s {
        SpecStmt::VarDecl { var_type, name, value } => {
            let hdr = "  # var "@ + spec_type_name(var_type) + " "@ + name + "\n"@;
            let (offset, c1) = crate::context::spec_alloc(c, name, var_type);
            match spec_gen_expr(value, c1) {
                Ok((vt, c2)) => Ok(
                    (hdr + vt + "  sw a0, "@ + spec_dec_u(offset as int) + "(s0)\n"@, c2),
                ),
                Err(m) => Err(m),
            }
        },
        SpecStmt::Assignment { name, value } => {
            let hdr = "  # assign "@ + name + "\n"@;
            match assoc_lookup(c.vars, name) {
                Some(offset) => match spec_gen_expr(value, c) {
                    Ok((vt, c2)) => Ok(
                        (hdr + vt + "  sw a0, "@ + spec_dec_u(offset as int) + "(s0)\n"@, c2),
                    ),
                    Err(m) => Err(m),
                },
                None => Err("Variable '"@ + name + "' not found"@),
            }
        },
        SpecStmt::Print { expr } => {
            let hdr = "  # print\n"@;
            let call = if spec_prints_string(expr, c) {
                "  call print_string\n"@
            } else {
                "  call print_int\n"@
            };
            match spec_gen_expr(expr, c) {
                Ok((et, c2)) => Ok((hdr + et + call, c2)),
                Err(m) => Err(m),
            }
        },
        SpecStmt::Return { expr } => {
            let hdr = "  # return\n"@;
            match expr {
                Some(e) => match spec_gen_expr(e, c) {
                    Ok((et, c2)) => Ok((hdr + et, c2)),
                    Err(m) => Err(m),
                },
                None => Ok((hdr + "  li a0, 0\n"@, c)),
            }
        },
        SpecStmt::Break => {
            if c.loop_stack.len() > 0 {
                Ok(("  j "@ + c.loop_stack.last() + "\n"@, c))
            } else {
                Err("Break outside of a loop"@)
            }
        },
        SpecStmt::If { condition, then_body, else_body } => {
            let (else_label, c1) = crate::context::spec_generate_label(c, ".Lelse"@);
            let (end_label, c2) = crate::context::spec_generate_label(c1, ".Lend_if"@);
            match spec_gen_expr(condition, c2) {
                Ok((ct, c3)) => match spec_gen_block(then_body, c3) {
                    Ok((tt, c4)) => {
                        let mid = "  # if\n"@ + ct + "  beqz a0, "@ + else_label + "\n"@ + tt
                            + "  j "@ + end_label + "\n"@ + else_label + ":\n"@;
                        match else_body {
                            Some(eb) => match spec_gen_block(eb, c4) {
                                Ok((et, c5)) => Ok((mid + et + end_label + ":\n"@, c5)),
                                Err(m) => Err(m),
                            },
                            None => Ok((mid + end_label + ":\n"@, c4)),
                        }
                    },
                    Err(m) => Err(m),
                },
                Err(m) => Err(m),
            }
        },
        SpecStmt::While { condition, body } => {
            let (c3, start_label, end_label) = spec_while_labels(c);
            match spec_gen_expr(condition, c3) {
                Ok((ct, c4)) => match spec_gen_block(body, c4) {
                    Ok((bt, c5)) => Ok(
                        (
                            "  # while\n"@ + start_label + ":\n"@ + ct + "  beqz a0, "@ + end_label
                                + "\n"@ + bt + "  j "@ + start_label + "\n"@ + end_label + ":\n"@,
                            spec_pop_loop(c5),
                        ),
                    ),
                    Err(m) => Err(m),
                },
                Err(m) => Err(m),
            }
        },
        SpecStmt::For { init, condition, increment, body } => {
            let (start_label, c1) = crate::context::spec_generate_label(c, ".Lfor_start"@);
            let (end_label, c2) = crate::context::spec_generate_label(c1, ".Lfor_end"@);
            match spec_gen_stmt(*init, c2) {
                Ok((it, c3)) => {
                    let c4 = SpecCtx { loop_stack: c3.loop_stack.push(end_label), ..c3 };
                    match spec_gen_expr(condition, c4) {
                        Ok((ct, c5)) => match spec_gen_block(body, c5) {
                            Ok((bt, c6)) => match spec_gen_stmt(*increment, c6) {
                                Ok((nt, c7)) => Ok(
                                    (
                                        "  # for\n"@ + it + start_label + ":\n"@ + ct
                                            + "  beqz a0, "@ + end_label + "\n"@ + bt + nt
                                            + "  j "@ + start_label + "\n"@ + end_label + ":\n"@,
                                        spec_pop_loop(c7),
                                    ),
                                ),
                                Err(m) => Err(m),
                            },
                            Err(m) => Err(m),
                        },
                        Err(m) => Err(m),
                    }
                },
                Err(m) => Err(m),
            }
        },
    }
}

/// The text a statement sequence lowers to, in order, threading the
/// context through.
pub open spec fn spec_gen_block(ss: Seq<SpecStmt>, c: SpecCtx) -> Result<
    (Seq<char>, SpecCtx),
    Seq<char>,
>
    decreases ss, 1int,
{
    if ss.len() == 0 {
        Ok((Seq::empty(), c))
    } else {
        match spec_gen_stmt(ss.first(), c) {
            Ok((t, c1)) => match spec_gen_block(ss.drop_first(), c1) {
                Ok((rt, c2)) => Ok((t + rt, c2)),
                Err(m) => Err(m),
            },
            Err(m) => Err(m),
        }
    }
}

/// Lowers one statement, appending its text.
#[verifier::rlimit(100)]
#[verifier::spinoff_prover]
fn generate_statement(
    output: &mut String,
    ctx: &mut CodeGenContext,
    stmt: &Statement,
) -> (r: Result<(), String>)
    ensures
        ({
            let sp = spec_gen_stmt(stmt@, old(ctx)@);
            &&& (r is Ok ==> sp is Ok && final(output)@ == old(output)@ + sp->Ok_0.0
                && final(ctx)@ == sp->Ok_0.1)
            &&& (r is Err ==> sp is Err && r->Err_0@ == sp->Err_0)
        }),
    decreases stmt, 0int, 0int,
{
    match stmt {
        Statement::VarDecl { var_type, name, value } => {
            output.append("  # var ");
            output.append(type_to_string(var_type));
            output.append(" ");
            output.append(name.as_str());
            output.append("\n");
            let offset = ctx.allocate_variable(name.clone(), *var_type);
            let ghost mid = output@;
            match generate_expression(output, ctx, value) {
                Ok(_) => {},
                Err(m) => {
                    return Err(m);
                },
            }
            output.append("  sw a0, ");
            let d = dec_u128(offset as u128);
            output.append(d.as_str());
            output.append("(s0)\n");
            proof {
                let sp = spec_gen_stmt(stmt@, old(ctx)@);
                assert(final(output)@ =~= old(output)@ + sp->Ok_0.0);
            }
            Ok(())
        },
        Statement::Assignment { name, value } => {
            let offset = match ctx.get_variable_offset(name.as_str()) {
                Some(o) => o,
                None => {
                    let mut m = String::from_str("Variable '");
                    m.append(name.as_str());
                    m.append("' not found");
                    return Err(m);
                },
            };
            output.append("  # assign ");
            output.append(name.as_str());
            output.append("\n");
            match generate_expression(output, ctx, value) {
                Ok(_) => {},
                Err(m) => {
                    return Err(m);
                },
            }
            output.append("  sw a0, ");
            let d = dec_u128(offset as u128);
            output.append(d.as_str());
            output.append("(s0)\n");
            proof {
                let sp = spec_gen_stmt(stmt@, old(ctx)@);
                assert(final(output)@ =~= old(output)@ + sp->Ok_0.0);
            }
            Ok(())
        },
        Statement::Print { expr } => {
            let prints_string = match expr {
                Expression::StringLit(_) => true,
                Expression::Variable(n) => match ctx.get_variable_type(n.as_str()) {
                    Some(t) => matches!(t, Type::Vibes),
                    None => false,
                },
                _ => false,
            };
            output.append("  # print\n");
            match generate_expression(output, ctx, expr) {
                Ok(_) => {},
                Err(m) => {
                    return Err(m);
                },
            }
            if prints_string {
                output.append("  call print_string\n");
            } else {
                output.append("  call print_int\n");
            }
            proof {
                let sp = spec_gen_stmt(stmt@, old(ctx)@);
                assert(final(output)@ =~= old(output)@ + sp->Ok_0.0);
            }
            Ok(())
        },
        Statement::Return { expr } => {
            output.append("  # return\n");
            match expr {
                Some(e) => {
                    match generate_expression(output, ctx, e) {
                        Ok(_) => {},
                        Err(m) => {
                            return Err(m);
                        },
                    }
                    proof {
                        let sp = spec_gen_stmt(stmt@, old(ctx)@);
                        assert(final(output)@ =~= old(output)@ + sp->Ok_0.0);
                    }
                    Ok(())
                },
                None => {
                    output.append("  li a0, 0\n");
                    proof {
                        let sp = spec_gen_stmt(stmt@, old(ctx)@);
                        assert(final(output)@ =~= old(output)@ + sp->Ok_0.0);
                    }
                    Ok(())
                },
            }
        },
        Statement::Break => {
            let end_label = match ctx.current_loop_end() {
                Some(l) => l.clone(),
                None => {
                    return Err(String::from_str("Break outside of a loop"));
                },
            };
            output.append("  j ");
            output.append(end_label.as_str());
            output.append("\n");
            proof {
                let sp = spec_gen_stmt(stmt@, old(ctx)@);
                assert(final(output)@ =~= old(output)@ + sp->Ok_0.0);
            }
            Ok(())
        },
        Statement::If { condition, then_body, else_body } => {
            let else_label = ctx.generate_label(".Lelse");
            let end_label = ctx.generate_label(".Lend_if");
            output.append("  # if\n");
            match generate_expression(output, ctx, condition) {
                Ok(_) => {},
                Err(m) => {
                    return Err(m);
                },
            }
            output.append("  beqz a0, ");
            output.append(else_label.as_str());
            output.append("\n");
            proof {
                assert(view_block(then_body@).skip(0) =~= view_block(then_body@));
            }
            match generate_block_from(output, ctx, then_body, 0) {
                Ok(_) => {},
                Err(m) => {
                    return Err(m);
                },
            }
            output.append("  j ");
            output.append(end_label.as_str());
            output.append("\n");
            output.append(else_label.as_str());
            output.append(":\n");
            match else_body {
                Some(eb) => {
                    proof {
                        assert(view_block(eb@).skip(0) =~= view_block(eb@));
                    }
                    match generate_block_from(output, ctx, eb, 0) {
                        Ok(_) => {},
                        Err(m) => {
                            return Err(m);
                        },
                    }
                },
                None => {},
            }
            output.append(end_label.as_str());
            output.append(":\n");
            proof {
                let sp = spec_gen_stmt(stmt@, old(ctx)@);
                assert(final(output)@ =~= old(output)@ + sp->Ok_0.0);
            }
            Ok(())
        },
        Statement::While { condition, body } => {
            let start_label = ctx.generate_label(".Lwhile_start");
            let end_label = ctx.generate_label(".Lwhile_end");
            ctx.enter_loop(end_label.clone());
            output.append("  # while\n");
            output.append(start_label.as_str());
            output.append(":\n");
            match generate_expression(output, ctx, condition) {
                Ok(_) => {},
                Err(m) => {
                    return Err(m);
                },
            }
            output.append("  beqz a0, ");
            output.append(end_label.as_str());
            output.append("\n");
            proof {
                assert(view_block(body@).skip(0) =~= view_block(body@));
            }
            match generate_block_from(output, ctx, body, 0) {
                Ok(_) => {},
                Err(m) => {
                    return Err(m);
                },
            }
            output.append("  j ");
            output.append(start_label.as_str());
            output.append("\n");
            output.append(end_label.as_str());
            output.append(":\n");
            ctx.exit_loop();
            proof {
                let sp = spec_gen_stmt(stmt@, old(ctx)@);
                assert(final(output)@ =~= old(output)@ + sp->Ok_0.0);
            }
            Ok(())
        },
        Statement::For { init, condition, increment, body } => {
            let start_label = ctx.generate_label(".Lfor_start");
            let end_label = ctx.generate_label(".Lfor_end");
            output.append("  # for\n");
            match generate_statement(output, ctx, init) {
                Ok(_) => {},
                Err(m) => {
                    return Err(m);
                },
            }
            ctx.enter_loop(end_label.clone());
            output.append(start_label.as_str());
            output.append(":\n");
            match generate_expression(output, ctx, condition) {
                Ok(_) => {},
                Err(m) => {
                    return Err(m);
                },
            }
            output.append("  beqz a0, ");
            output.append(end_label.as_str());
            output.append("\n");
            proof {
                assert(view_block(body@).skip(0) =~= view_block(body@));
            }
            match generate_block_from(output, ctx, body, 0) {
                Ok(_) => {},
                Err(m) => {
                    return Err(m);
                },
            }
            match generate_statement(output, ctx, increment) {
                Ok(_) => {},
                Err(m) => {
                    return Err(m);
                },
            }
            output.append("  j ");
            output.append(start_label.as_str());
            output.append("\n");
            output.append(end_label.as_str());
            output.append(":\n");
            ctx.exit_loop();
            proof {
                let sp = spec_gen_stmt(stmt@, old(ctx)@);
                assert(final(output)@ =~= old(output)@ + sp->Ok_0.0);
            }
            Ok(())
        },
    }
}

/// Lowers the statements of a block from position `from` on.
fn generate_block_from(
    output: &mut String,
    ctx: &mut CodeGenContext,
    stmts: &Vec<Statement>,
    from: usize,
) -> (r: Result<(), String>)
    requires
        from <= stmts@.len(),
    ensures
        ({
            let sp = spec_gen_block(view_block(stmts@).skip(from as int), old(ctx)@);
            &&& (r is Ok ==> sp is Ok && final(output)@ == old(output)@ + sp->Ok_0.0
                && final(ctx)@ == sp->Ok_0.1)
            &&& (r is Err ==> sp is Err && r->Err_0@ == sp->Err_0)
        }),
    decreases stmts@, stmts@.len() - from, 1int,
{
    let ghost bs = view_block(stmts@);
    proof {
        lemma_view_block_len(stmts@);
    }
    if from >= stmts.len() {
        proof {
            assert(bs.skip(from as int) =~= Seq::<SpecStmt>::empty());
            assert(final(output)@ =~= old(output)@ + Seq::<char>::empty());
        }
        return Ok(());
    }
    proof {
        assert(bs.skip(from as int).first() == bs[from as int]);
        assert(bs.skip(from as int).drop_first() =~= bs.skip(from as int + 1));
        assert(decreases_to!(stmts@ => stmts@[from as int]));
    }
    match generate_statement(output, ctx, &stmts[from]) {
        Ok(_) => {},
        Err(m) => {
            return Err(m);
        },
    }
    let r = generate_block_from(output, ctx, stmts, from + 1);
    proof {
        let sp = spec_gen_block(bs.skip(from as int), old(ctx)@);
        if r is Ok {
            assert(final(output)@ =~= old(output)@ + sp->Ok_0.0);
        }
    }
    r
}

/// The fixed integer-printing runtime helper.
pub const HELPER_PRINT_INT: &'static str = "# helper: print the signed integer in a0 in decimal, then a newline\nprint_int:\n  addi sp, sp, -20\n  mv t0, sp\n  li t1, 10\n  mv t2, a0\n  li t3, 0\n  bgez t2, .Lconv_loop\n  li t3, 1\n  neg t2, t2\n.Lconv_loop:\n  remu t4, t2, t1\n  divu t2, t2, t1\n  addi t4, t4, 48\n  sb t4, 0(t0)\n  addi t0, t0, 1\n  bnez t2, .Lconv_loop\n  beqz t3, .Lrev_start\n  li t4, 45\n  sb t4, 0(t0)\n  addi t0, t0, 1\n.Lrev_start:\n  mv t1, sp\n  addi t2, t0, -1\n.Lrev_loop:\n  bge t1, t2, .Lprint\n  lb t3, 0(t1)\n  lb t4, 0(t2)\n  sb t4, 0(t1)\n  sb t3, 0(t2)\n  addi t1, t1, 1\n  addi t2, t2, -1\n  j .Lrev_loop\n.Lprint:\n  li a0, 1\n  mv a1, sp\n  sub a2, t0, sp\n  li a7, 64\n  ecall\n  li a0, 1\n  la a1, .Lnewline\n  li a2, 1\n  li a7, 64\n  ecall\n  addi sp, sp, 20\n  ret\n\n";

/// The fixed string-printing runtime helper.
pub const HELPER_PRINT_STRING: &'static str = "# helper: print the null-terminated string at a0, then a newline\nprint_string:\n  addi sp, sp, -4\n  sw a0, 0(sp)\n  mv t0, a0\n  li t1, 0\n.Lstrlen_loop:\n  lb t2, 0(t0)\n  beqz t2, .Lstr_write\n  addi t0, t0, 1\n  addi t1, t1, 1\n  j .Lstrlen_loop\n.Lstr_write:\n  lw a1, 0(sp)\n  mv a2, t1\n  li a0, 1\n  li a7, 64\n  ecall\n  li a0, 1\n  la a1, .Lnewline\n  li a2, 1\n  li a7, 64\n  ecall\n  addi sp, sp, 4\n  ret\n\n";

/// The fixed module header.
pub const MODULE_HEADER: &'static str = "# Target: RISC-V RV32IM Linux\n\n.text\n.global _start\n\n";

/// The fixed entry point: call the main-name function, then exit with its
/// return value.
pub const ENTRY_TEXT: &'static str = "_start:\ncall sigma\nli a7, 93\necall\n\n";

/// The text of the two runtime helpers.
pub open spec fn spec_helpers_text() -> Seq<char> {
    HELPER_PRINT_INT@ + HELPER_PRINT_STRING@
}

/// The text of the entry point.
pub open spec fn spec_entry_text() -> Seq<char> {
    ENTRY_TEXT@
}

/// The label lines of a function: a comment and the entry label.
pub open spec fn spec_fn_header(f: SpecFunction) -> Seq<char> {
    "# function "@ + f.name + "\n"@ + f.name + ":\n"@
}

/// The prologue: lower the stack pointer by the whole frame, set the frame
/// pointer, store the return address in the frame's top word.
pub open spec fn spec_prologue(total: int) -> Seq<char> {
    "  # prologue\n  addi sp, sp, -"@ + spec_dec_u(total) + "\n  mv s0, sp\n  sw ra, "@
        + spec_dec_u(total - 4) + "(s0)\n"@
}

/// The closing half of the epilogue: reload the return address, restore
/// the stack pointer, return.
pub open spec fn spec_epilogue_tail(total: int) -> Seq<char> {
    "  lw ra, "@ + spec_dec_u(total - 4) + "(s0)\n  addi sp, sp, "@ + spec_dec_u(total)
        + "\n  ret\n\n"@
}

/// The epilogue; a function declaring the void return type places a zero
/// in the return-value register first, whether or not a return was lowered.
pub open spec fn spec_epilogue(ret: Type, total: int) -> Seq<char> {
    "  # epilogue\n"@ + (if ret == Type::Void {
        "  li a0, 0\n"@
    } else {
        Seq::empty()
    }) + spec_epilogue_tail(total)
}

/// Stores the incoming argument registers into sequential frame slots from
/// parameter `i` on, registering each name.
pub open spec fn spec_gen_params(ps: Seq<SpecParameter>, c: SpecCtx, i: int) -> (Seq<char>, SpecCtx)
    decreases ps.len() - i,
{
    if i < 0 || i >= ps.len() {
        (Seq::empty(), c)
    } else {
        let (offset, c1) = crate::context::spec_alloc(c, ps[i].name, ps[i].parameter_type);
        let t = "  sw a"@ + spec_dec_u(i) + ", "@ + spec_dec_u(offset as int) + "(s0) # param "@
            + ps[i].name + "\n"@;
        let (rt, c2) = spec_gen_params(ps, c1, i + 1);
        (t + rt, c2)
    }
}

/// The text one function lowers to, and the context after, or an error.
/// The variable maps and the cursor start empty and are restored after the
/// body; the string pool and label counter span the whole unit.
pub open spec fn spec_gen_function(f: SpecFunction, c: SpecCtx) -> Result<
    (Seq<char>, SpecCtx),
    Seq<char>,
> {
    let c0 = SpecCtx {
        vars: Seq::empty(),
        var_types: Seq::empty(),
        stack_offset: 0,
        ..c
    };
    let total = spec_total_stack(f);
    let (pt, c1) = spec_gen_params(f.parameters, c0, 0);
    match spec_gen_block(f.body, c1) {
        Ok((bt, c2)) => Ok(
            (
                spec_fn_header(f) + spec_prologue(total) + pt + bt + spec_epilogue(
                    f.return_type,
                    total,
                ),
                SpecCtx {
                    vars: c.vars,
                    var_types: c.var_types,
                    stack_offset: c.stack_offset,
                    ..c2
                },
            ),
        ),
        Err(m) => Err(m),
    }
}

/// The text of the functions from position `i` on.
pub open spec fn spec_gen_funcs(fs: Seq<SpecFunction>, c: SpecCtx, i: int) -> Result<
    (Seq<char>, SpecCtx),
    Seq<char>,
>
    decreases fs.len() - i,
{
    if i < 0 || i >= fs.len() {
        Ok((Seq::empty(), c))
    } else {
        match spec_gen_function(fs[i], c) {
            Ok((t, c1)) => match spec_gen_funcs(fs, c1, i + 1) {
                Ok((rt, c2)) => Ok((t + rt, c2)),
                Err(m) => Err(m),
            },
            Err(m) => Err(m),
        }
    }
}

/// The data lines of the interned string literals from position `i` on.
pub open spec fn spec_data_entries(pool: Seq<Seq<char>>, i: int) -> Seq<char>
    decreases pool.len() - i,
{
    if i < 0 || i >= pool.len() {
        Seq::empty()
    } else {
        crate::context::spec_str_label(i) + ": .asciz \""@ + pool[i] + "\"\n"@
            + spec_data_entries(pool, i + 1)
    }
}

/// The data section: every string literal in discovery order, then the
/// newline constant the helpers rely on.
pub open spec fn spec_data_text(pool: Seq<Seq<char>>) -> Seq<char> {
    "\n.data\n"@ + spec_data_entries(pool, 0) + ".Lnewline: .asciz \"\\n\"\n"@
}

/// The whole module a validated program lowers to: header, entry point,
/// runtime helpers, one block per function, and the data section.
pub open spec fn spec_generate_riscv(p: crate::ast::SpecProgram) -> Result<Seq<char>, Seq<char>> {
    let c0 = SpecCtx {
        vars: Seq::empty(),
        var_types: Seq::empty(),
        stack_offset: 0,
        pool: Seq::empty(),
        label_counter: 0,
        loop_stack: Seq::empty(),
    };
    match spec_gen_funcs(p.functions, c0, 0) {
        Ok((ft, c2)) => Ok(
            MODULE_HEADER@ + spec_entry_text() + spec_helpers_text() + ft + spec_data_text(c2.pool),
        ),
        Err(m) => Err(m),
    }
}

/// Copies a variable-to-offset list.
fn copy_var_list(v: &Vec<(String, u64)>) -> (r: Vec<(String, u64)>)
    ensures
        r@ == v@,
{
    let mut r: Vec<(String, u64)> = Vec::new();
    let n = v.len();
    let mut i: usize = 0;
    while i < n
        invariant
            i <= n,
            n == v@.len(),
            r@ == v@.subrange(0, i as int),
        decreases n - i,
    {
        r.push((v[i].0.clone(), v[i].1));
        i = i + 1;
        assert(r@ =~= v@.subrange(0, i as int));
    }
    proof {
        assert(v@.subrange(0, n as int) =~= v@);
    }
    r
}

/// Copies a variable-to-type list.
fn copy_type_list(v: &Vec<(String, Type)>) -> (r: Vec<(String, Type)>)
    ensures
        r@ == v@,
{
    let mut r: Vec<(String, Type)> = Vec::new();
    let n = v.len();
    let mut i: usize = 0;
    while i < n
        invariant
            i <= n,
            n == v@.len(),
            r@ == v@.subrange(0, i as int),
        decreases n - i,
    {
        r.push((v[i].0.clone(), v[i].1));
        i = i + 1;
        assert(r@ =~= v@.subrange(0, i as int));
    }
    proof {
        assert(v@.subrange(0, n as int) =~= v@);
    }
    r
}

/// Writes the two fixed runtime helpers.
pub fn generate_helpers(output: &mut String)
    ensures
        final(output)@ == old(output)@ + spec_helpers_text(),
{
    output.append(HELPER_PRINT_INT);
    output.append(HELPER_PRINT_STRING);
    proof {
        assert(final(output)@ =~= old(output)@ + spec_helpers_text());
    }
}

/// Writes the fixed entry point.
pub fn generate_entry_point(output: &mut String)
    ensures
        final(output)@ == old(output)@ + spec_entry_text(),
{
    output.append(ENTRY_TEXT);
}

/// Stores the incoming argument registers into sequential frame slots
/// from parameter `from` on, registering each name and type.
fn generate_params_from(
    output: &mut String,
    ctx: &mut CodeGenContext,
    params: &Vec<Parameter>,
    from: usize,
)
    requires
        from <= params@.len(),
    ensures
        ({
            let sp = spec_gen_params(view_params(params@), old(ctx)@, from as int);
            &&& final(output)@ == old(output)@ + sp.0
            &&& final(ctx)@ == sp.1
        }),
    decreases params@.len() - from,
{
    let ghost ps = view_params(params@);
    if from >= params.len() {
        proof {
            assert(final(output)@ =~= old(output)@ + Seq::<char>::empty());
        }
        return ;
    }
    proof {
        assert(ps[from as int] == params@[from as int]@);
    }
    let p = &params[from];
    let offset = ctx.allocate_variable(p.name.clone(), p.parameter_type);
    output.append("  sw a");
    let d_i = dec_u128(from as u128);
    output.append(d_i.as_str());
    output.append(", ");
    let d_off = dec_u128(offset as u128);
    output.append(d_off.as_str());
    output.append("(s0) # param ");
    output.append(p.name.as_str());
    output.append("\n");
    generate_params_from(output, ctx, params, from + 1);
    proof {
        let sp = spec_gen_params(ps, old(ctx)@, from as int);
        assert(final(output)@ =~= old(output)@ + sp.0);
    }
}

/// Lowers one function: labels, prologue, parameter stores, body,
/// epilogue; the context's per-function state is reset and then restored.
#[verifier::rlimit(100)]
#[verifier::spinoff_prover]
fn generate_function(
    output: &mut String,
    ctx: &mut CodeGenContext,
    func: &Function,
) -> (r: Result<(), String>)
    ensures
        ({
            let sp = spec_gen_function(func@, old(ctx)@);
            &&& (r is Ok ==> sp is Ok && final(output)@ == old(output)@ + sp->Ok_0.0
                && final(ctx)@ == sp->Ok_0.1)
            &&& (r is Err ==> sp is Err && r->Err_0@ == sp->Err_0)
        }),
{
    let ghost ps = view_params(func.parameters@);
    let ghost out0 = output@;
    output.append("# function ");
    output.append(func.name.as_str());
    output.append("\n");
    output.append(func.name.as_str());
    output.append(":\n");
    proof {
        assert(output@ =~= out0 + spec_fn_header(func@));
    }
    let saved_offset = ctx.stack_offset;
    let saved_vars = copy_var_list(&ctx.variables);
    let saved_types = copy_type_list(&ctx.variable_types);
    ctx.stack_offset = 0;
    ctx.variables = Vec::new();
    ctx.variable_types = Vec::new();
    let ghost c0 = ctx@;
    proof {
        assert(c0.vars =~= Seq::<(Seq<char>, u64)>::empty());
        assert(c0.var_types =~= Seq::<(Seq<char>, Type)>::empty());
        assert(c0 == (SpecCtx {
            vars: Seq::empty(),
            var_types: Seq::empty(),
            stack_offset: 0,
            ..old(ctx)@
        }));
    }
    let local_count = count_local_vars(&func.body);
    let param_count = func.parameters.len();
    let depth = estimate_max_expression_depth(&func.body);
    let temp_space: u128 = (depth as u128) * 4;
    let total_stack: u128 = ((local_count as u128) + (param_count as u128)) * 4 + 4 + temp_space;
    proof {
        lemma_count_locals_bounds(view_block(func.body@));
        assert(total_stack == spec_total_stack(func@));
    }
    output.append("  # prologue\n  addi sp, sp, -");
    let d_total = dec_u128(total_stack);
    let d_ra = dec_u128(total_stack - 4);
    output.append(d_total.as_str());
    output.append("\n  mv s0, sp\n  sw ra, ");
    output.append(d_ra.as_str());
    output.append("(s0)\n");
    proof {
        assert(output@ =~= out0 + spec_fn_header(func@) + spec_prologue(total_stack as int));
    }
    let ghost out1 = output@;
    generate_params_from(output, ctx, &func.parameters, 0);
    proof {
        assert(output@ == out1 + spec_gen_params(ps, c0, 0).0);
    }
    let ghost out2 = output@;
    proof {
        assert(view_block(func.body@).skip(0) =~= view_block(func.body@));
    }
    match generate_block_from(output, ctx, &func.body, 0) {
        Ok(_) => {},
        Err(m) => {
            return Err(m);
        },
    }
    let ghost body_text = spec_gen_block(view_block(func.body@), spec_gen_params(ps, c0, 0).1)->Ok_0.0;
    proof {
        assert(output@ == out2 + body_text);
    }
    let ghost out3 = output@;
    output.append("  # epilogue\n");
    if matches!(func.return_type, Type::Void) {
        output.append("  li a0, 0\n");
    }
    output.append("  lw ra, ");
    output.append(d_ra.as_str());
    output.append("(s0)\n  addi sp, sp, ");
    output.append(d_total.as_str());
    output.append("\n  ret\n\n");
    proof {
        assert(output@ =~= out3 + spec_epilogue(func@.return_type, total_stack as int));
    }
    ctx.variables = saved_vars;
    ctx.variable_types = saved_types;
    ctx.stack_offset = saved_offset;
    proof {
        let sp = spec_gen_function(func@, old(ctx)@);
        assert(final(ctx)@.vars =~= old(ctx)@.vars);
        assert(final(ctx)@.var_types =~= old(ctx)@.var_types);
        assert(final(ctx)@ == sp->Ok_0.1);
        assert(sp->Ok_0.0 == spec_fn_header(func@) + spec_prologue(total_stack as int)
            + spec_gen_params(ps, c0, 0).0 + body_text + spec_epilogue(
            func@.return_type,
            total_stack as int,
        ));
        assert(final(output)@ =~= out0 + sp->Ok_0.0);
    }
    Ok(())
}

/// Lowers the functions of a program from position `from` on.
fn generate_funcs_from(
    output: &mut String,
    ctx: &mut CodeGenContext,
    funcs: &Vec<Function>,
    from: usize,
) -> (r: Result<(), String>)
    requires
        from <= funcs@.len(),
    ensures
        ({
            let sp = spec_gen_funcs(crate::ast::view_functions(funcs@), old(ctx)@, from as int);
            &&& (r is Ok ==> sp is Ok && final(output)@ == old(output)@ + sp->Ok_0.0
                && final(ctx)@ == sp->Ok_0.1)
            &&& (r is Err ==> sp is Err && r->Err_0@ == sp->Err_0)
        }),
    decreases funcs@.len() - from,
{
    let ghost fs = crate::ast::view_functions(funcs@);
    if from >= funcs.len() {
        proof {
            assert(final(output)@ =~= old(output)@ + Seq::<char>::empty());
        }
        return Ok(());
    }
    proof {
        assert(fs[from as int] == funcs@[from as int]@);
    }
    match generate_function(output, ctx, &funcs[from]) {
        Ok(_) => {},
        Err(m) => {
            return Err(m);
        },
    }
    let r = generate_funcs_from(output, ctx, funcs, from + 1);
    proof {
        let sp = spec_gen_funcs(fs, old(ctx)@, from as int);
        if r is Ok {
            assert(final(output)@ =~= old(output)@ + sp->Ok_0.0);
        }
    }
    r
}

/// Writes the data section: the interned literals in discovery order, then
/// the newline constant.
fn generate_data_section(output: &mut String, ctx: &CodeGenContext)
    ensures
        final(output)@ == old(output)@ + spec_data_text(ctx@.pool),
{
    output.append("\n.data\n");
    let ghost pool = ctx@.pool;
    let ghost out_pre = output@;
    let n = ctx.string_literals.len();
    let mut i: usize = 0;
    while i < n
        invariant
            i <= n,
            n == ctx.string_literals@.len(),
            pool == ctx@.pool,
            output@ == out_pre + spec_data_entries(pool, 0).subrange(
                0,
                spec_data_entries(pool, 0).len() - spec_data_entries(pool, i as int).len(),
            ),
            spec_data_entries(pool, 0) == spec_data_entries(pool, 0).subrange(
                0,
                spec_data_entries(pool, 0).len() - spec_data_entries(pool, i as int).len(),
            ) + spec_data_entries(pool, i as int),
        decreases n - i,
    {
        proof {
            assert(pool[i as int] == ctx.string_literals@[i as int]@);
        }
        output.append("str_");
        let d = dec_u128(i as u128);
        output.append(d.as_str());
        output.append(": .asciz \"");
        output.append(ctx.string_literals[i].as_str());
        output.append("\"\n");
        i = i + 1;
        proof {
            let full = spec_data_entries(pool, 0);
            let rem = spec_data_entries(pool, i as int);
            assert(full =~= full.subrange(0, full.len() - rem.len()) + rem);
            assert(output@ =~= out_pre + full.subrange(0, full.len() - rem.len()));
        }
    }
    proof {
        assert(spec_data_entries(pool, n as int) =~= Seq::<char>::empty());
        assert(spec_data_entries(pool, 0).subrange(0, spec_data_entries(pool, 0).len() as int)
            =~= spec_data_entries(pool, 0));
    }
    output.append(".Lnewline: .asciz \"\\n\"\n");
    proof {
        assert(final(output)@ =~= old(output)@ + spec_data_text(ctx@.pool));
    }
}

/// Lowers a validated program to one assembly module, or fails with the
/// first generation error: an undeclared variable at lowering, or a
/// `break` outside any loop.
pub fn generate_riscv(ast: &Program) -> (r: Result<String, String>)
    ensures
        ({
            let sp = spec_generate_riscv(ast@);
            &&& (r is Ok ==> sp is Ok && r->Ok_0@ == sp->Ok_0)
            &&& (r is Err ==> sp is Err && r->Err_0@ == sp->Err_0)
        }),
{
    let mut output = String::new();
    let mut ctx = CodeGenContext::new();
    proof {
        assert(ctx@ == (SpecCtx {
            vars: Seq::empty(),
            var_types: Seq::empty(),
            stack_offset: 0,
            pool: Seq::empty(),
            label_counter: 0,
            loop_stack: Seq::empty(),
        }));
    }
    output.append(MODULE_HEADER);
    generate_entry_point(&mut output);
    generate_helpers(&mut output);
    proof {
        assert(crate::ast::view_functions(ast.functions@).skip(0) =~= crate::ast::view_functions(
            ast.functions@,
        ));
    }
    match generate_funcs_from(&mut output, &mut ctx, &ast.functions, 0) {
        Ok(_) => {},
        Err(m) => {
            return Err(m);
        },
    }
    generate_data_section(&mut output, &ctx);
    proof {
        let sp = spec_generate_riscv(ast@);
        assert(output@ =~= sp->Ok_0);
    }
    Ok(output)
}

/// For a function declaring the void return type, the emitted block sets
/// the return-value register to zero immediately before the epilogue's
/// return-address reload, independent of whether its body lowered any
/// return.
pub proof fn lemma_void_function_default_zero(f: SpecFunction, c: SpecCtx)
    requires
        f.return_type == Type::Void,
        spec_gen_function(f, c) is Ok,
    ensures
        exists|prefix: Seq<char>|
            spec_gen_function(f, c)->Ok_0.0 == prefix + ("  li a0, 0\n"@ + spec_epilogue_tail(
                spec_total_stack(f),
            )),
{
    let c0 = SpecCtx { vars: Seq::empty(), var_types: Seq::empty(), stack_offset: 0, ..c };
    let total = spec_total_stack(f);
    let (pt, c1) = spec_gen_params(f.parameters, c0, 0);
    let bt = spec_gen_block(f.body, c1)->Ok_0.0;
    let prefix = spec_fn_header(f) + spec_prologue(total) + pt + bt + "  # epilogue\n"@;
    assert(spec_gen_function(f, c)->Ok_0.0 =~= prefix + ("  li a0, 0\n"@ + spec_epilogue_tail(
        total,
    )));
}

/// `break` lowers to a jump to the exit label on top of the loop-label
/// stack — the innermost open loop — and with an empty stack it is a
/// terminal generator error.
pub proof fn lemma_break_uses_innermost_label(c: SpecCtx)
    ensures
        c.loop_stack.len() > 0 ==> spec_gen_stmt(SpecStmt::Break, c) == Ok::<
            (Seq<char>, SpecCtx),
            Seq<char>,
        >(("  j "@ + c.loop_stack.last() + "\n"@, c)),
        c.loop_stack.len() == 0 ==> spec_gen_stmt(SpecStmt::Break, c) == Err::<
            (Seq<char>, SpecCtx),
            Seq<char>,
        >("Break outside of a loop"@),
{
}

/// For a `break` inside a while-loop inside a while-loop, the context in
/// effect for the inner body carries both exit labels, innermost last, so
/// the break jumps to the inner loop's exit label, which differs from the
/// outer one.  (An integer-literal condition leaves the context unchanged,
/// so the inner loop's labels are drawn right after the outer one's.)
pub proof fn lemma_nested_break_resolves_innermost(n1: i32, n2: i32, c: SpecCtx)
    requires
        c.label_counter <= u64::MAX - 4,
    ensures
        ({
            let (c_outer_body, outer_start, outer_end) = spec_while_labels(c);
            let (c_inner_body, inner_start, inner_end) = spec_while_labels(c_outer_body);
            &&& spec_gen_expr(SpecExpr::Integer(n1), c_outer_body) == Ok::<
                (Seq<char>, SpecCtx),
                Seq<char>,
            >(("  li a0, "@ + spec_dec_i(n1 as int) + "\n"@, c_outer_body))
            &&& inner_end != outer_end
            &&& c_inner_body.loop_stack == c.loop_stack.push(outer_end).push(inner_end)
            &&& spec_gen_stmt(SpecStmt::Break, c_inner_body) == Ok::<
                (Seq<char>, SpecCtx),
                Seq<char>,
            >(("  j "@ + inner_end + "\n"@, c_inner_body))
        }),
{
    crate::context::lemma_labels_distinct(
        ".Lwhile_end"@,
        (c.label_counter + 1) as u64,
        (c.label_counter + 3) as u64,
    );
}

} // verus!
