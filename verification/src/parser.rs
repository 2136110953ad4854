//! Recursive descent parsing with precedence climbing: consumes the token
//! sequence through a single forward cursor and produces a [`Program`], or
//! fails with a descriptive error naming the unexpected token.
//!
//! Expression precedence, lowest to highest: comparison over additive over
//! multiplicative over primary, each level left-associative.
use vstd::prelude::*;

use crate::ast::BinOp;
use crate::ast::Expression;
use crate::ast::Function;
use crate::ast::Parameter;
use crate::ast::Program;
use crate::ast::SpecExpr;
use crate::ast::SpecFunction;
use crate::ast::SpecParameter;
use crate::ast::SpecProgram;
use crate::ast::SpecStmt;
use crate::ast::Statement;
use crate::ast::Type;
use crate::ast::view_block;
use crate::ast::view_params;
use crate::chars::push_char;
use crate::numerals::dec_i64;
use crate::numerals::spec_dec_i;
use crate::tokenizer::SpecToken;
use crate::tokenizer::Token;
use crate::tokenizer::tokens_view;

verus! {

/// The surface text of a token, used in error messages.
pub open spec fn spec_token_desc(t: SpecToken) -> Seq<char> {
    match t {
        SpecToken::Based => "based"@,
        SpecToken::SuperBased => "superBased"@,
        SpecToken::Chill => "chill"@,
        SpecToken::Chad => "chad"@,
        SpecToken::Vibes => "vibes"@,
        SpecToken::Void => "ghost"@,
        SpecToken::Cap => "cap"@,
        SpecToken::Fr => "fr"@,
        SpecToken::Slay => "slay"@,
        SpecToken::Plus => "+"@,
        SpecToken::Minus => "-"@,
        SpecToken::Star => "*"@,
        SpecToken::Slash => "/"@,
        SpecToken::Equal => "=="@,
        SpecToken::NotEqual => "!="@,
        SpecToken::Less => "<"@,
        SpecToken::Greater => ">"@,
        SpecToken::LessEq => "<="@,
        SpecToken::GreaterEq => ">="@,
        SpecToken::Flex => "flex"@,
        SpecToken::Yeet => "yeet"@,
        SpecToken::SixSeven => "sixSeven"@,
        SpecToken::Ong => "ong"@,
        SpecToken::Nah => "nah"@,
        SpecToken::Mewing => "mewing"@,
        SpecToken::Ohio => "ohio"@,
        SpecToken::Bussin => "bussin"@,
        SpecToken::Sigma => "sigma"@,
        SpecToken::Skibidi => "skibidi"@,
        SpecToken::Gyatt => "gyatt"@,
        SpecToken::Rizz(n) => n,
        SpecToken::IntLit(v) => spec_dec_i(v as int),
        SpecToken::FloatLit(t) => t,
        SpecToken::StringLit(s) => s,
        SpecToken::CharLit(c) => seq![c],
        SpecToken::OpenParen => "("@,
        SpecToken::CloseParen => ")"@,
        SpecToken::OpenBrace => "{"@,
        SpecToken::CloseBrace => "}"@,
        SpecToken::Semicolon => ";"@,
        SpecToken::Comma => ","@,
        SpecToken::Unknown(s) => s,
    }
}

/// The source type named by a type keyword, if the token is one.
pub open spec fn token_type(t: SpecToken) -> Option<Type> {
    match t {
        SpecToken::Based => Some(Type::Based),
        SpecToken::SuperBased => Some(Type::SuperBased),
        SpecToken::Chill => Some(Type::Chill),
        SpecToken::Vibes => Some(Type::Vibes),
        SpecToken::Chad => Some(Type::Chad),
        SpecToken::Void => Some(Type::Void),
        _ => None,
    }
}

/// Whether the token may start a variable declaration (every type keyword
/// but the void one).
pub open spec fn is_decl_type_token(t: SpecToken) -> bool {
    t is Based || t is SuperBased || t is Chill || t is Vibes || t is Chad
}

/// A primary expression: a literal, a variable reference, or a
/// parenthesized sub-expression.  Integer literals fitting the 32-bit
/// signed range become the narrow variant, all others the wide variant —
/// a width decision made once here and never revisited.
pub open spec fn sp_primary(ts: Seq<SpecToken>, i: int) -> Result<(SpecExpr, int), Seq<char>>
    decreases ts.len() - i, 0int,
{
    if i < 0 || i >= ts.len() {
        Err("Unexpected end of input"@)
    } else {
        match ts[i] {
            SpecToken::IntLit(v) => if i32::MIN <= v && v <= i32::MAX {
                Ok((SpecExpr::Integer(v as i32), i + 1))
            } else {
                Ok((SpecExpr::Long(v), i + 1))
            },
            SpecToken::FloatLit(t) => Ok((SpecExpr::Float(t), i + 1)),
            SpecToken::StringLit(s) => Ok((SpecExpr::StringLit(s), i + 1)),
            SpecToken::CharLit(c) => Ok((SpecExpr::CharLit(c), i + 1)),
            SpecToken::Rizz(n) => Ok((SpecExpr::Variable(n), i + 1)),
            SpecToken::OpenParen => match sp_expression(ts, i + 1) {
                Ok((e, j)) => if j < ts.len() && ts[j] is CloseParen {
                    Ok((e, j + 1))
                } else if j >= ts.len() {
                    Err("Unexpected end of input"@)
                } else {
                    Err("Expected ')' after expression"@)
                },
                Err(m) => Err(m),
            },
            _ => Err("Expected expression, found "@ + spec_token_desc(ts[i])),
        }
    }
}

/// Left fold of `* /` operators onto an already-parsed left operand.
pub open spec fn sp_mul_tail(ts: Seq<SpecToken>, i: int, left: SpecExpr) -> Result<
    (SpecExpr, int),
    Seq<char>,
>
    decreases ts.len() - i, 1int,
{
    if 0 <= i < ts.len() && (ts[i] is Star || ts[i] is Slash) {
        let op = if ts[i] is Star {
            BinOp::Mul
        } else {
            BinOp::Div
        };
        match sp_primary(ts, i + 1) {
            Ok((right, j)) => if i + 1 < j <= ts.len() {
                sp_mul_tail(
                    ts,
                    j,
                    SpecExpr::BinOp { left: Box::new(left), op: op, right: Box::new(right) },
                )
            } else {
                Err("Unexpected end of input"@)
            },
            Err(m) => Err(m),
        }
    } else {
        Ok((left, i))
    }
}

/// Multiplicative level: `* /`, left-associative.
pub open spec fn sp_multiplicative(ts: Seq<SpecToken>, i: int) -> Result<
    (SpecExpr, int),
    Seq<char>,
>
    decreases ts.len() - i, 2int,
{
    match sp_primary(ts, i) {
        Ok((left, j)) => if i < j <= ts.len() {
            sp_mul_tail(ts, j, left)
        } else {
            Err("Unexpected end of input"@)
        },
        Err(m) => Err(m),
    }
}

/// Left fold of `+ -` operators onto an already-parsed left operand.
pub open spec fn sp_add_tail(ts: Seq<SpecToken>, i: int, left: SpecExpr) -> Result<
    (SpecExpr, int),
    Seq<char>,
>
    decreases ts.len() - i, 3int,
{
    if 0 <= i < ts.len() && (ts[i] is Plus || ts[i] is Minus) {
        let op = if ts[i] is Plus {
            BinOp::Add
        } else {
            BinOp::Sub
        };
        match sp_multiplicative(ts, i + 1) {
            Ok((right, j)) => if i + 1 < j <= ts.len() {
                sp_add_tail(
                    ts,
                    j,
                    SpecExpr::BinOp { left: Box::new(left), op: op, right: Box::new(right) },
                )
            } else {
                Err("Unexpected end of input"@)
            },
            Err(m) => Err(m),
        }
    } else {
        Ok((left, i))
    }
}

/// Additive level: `+ -`, left-associative.
pub open spec fn sp_additive(ts: Seq<SpecToken>, i: int) -> Result<(SpecExpr, int), Seq<char>>
    decreases ts.len() - i, 4int,
{
    match sp_multiplicative(ts, i) {
        Ok((left, j)) => if i < j <= ts.len() {
            sp_add_tail(ts, j, left)
        } else {
            Err("Unexpected end of input"@)
        },
        Err(m) => Err(m),
    }
}

/// The comparison operator of a token, if it is one.
pub open spec fn comparison_op(t: SpecToken) -> Option<BinOp> {
    match t {
        SpecToken::Equal => Some(BinOp::Equal),
        SpecToken::NotEqual => Some(BinOp::NotEqual),
        SpecToken::Less => Some(BinOp::Less),
        SpecToken::Greater => Some(BinOp::Greater),
        SpecToken::LessEq => Some(BinOp::LessEq),
        SpecToken::GreaterEq => Some(BinOp::GreaterEq),
        _ => None,
    }
}

/// Left fold of comparison operators onto an already-parsed left operand.
pub open spec fn sp_cmp_tail(ts: Seq<SpecToken>, i: int, left: SpecExpr) -> Result<
    (SpecExpr, int),
    Seq<char>,
>
    decreases ts.len() - i, 5int,
{
    if 0 <= i < ts.len() && comparison_op(ts[i]) is Some {
        let op = comparison_op(ts[i])->Some_0;
        match sp_additive(ts, i + 1) {
            Ok((right, j)) => if i + 1 < j <= ts.len() {
                sp_cmp_tail(
                    ts,
                    j,
                    SpecExpr::BinOp { left: Box::new(left), op: op, right: Box::new(right) },
                )
            } else {
                Err("Unexpected end of input"@)
            },
            Err(m) => Err(m),
        }
    } else {
        Ok((left, i))
    }
}

/// Comparison level: `== != < > <= >=`, left-associative.
pub open spec fn sp_comparison(ts: Seq<SpecToken>, i: int) -> Result<(SpecExpr, int), Seq<char>>
    decreases ts.len() - i, 6int,
{
    match sp_additive(ts, i) {
        Ok((left, j)) => if i < j <= ts.len() {
            sp_cmp_tail(ts, j, left)
        } else {
            Err("Unexpected end of input"@)
        },
        Err(m) => Err(m),
    }
}

/// A whole expression: the lowest precedence level.
pub open spec fn sp_expression(ts: Seq<SpecToken>, i: int) -> Result<(SpecExpr, int), Seq<char>>
    decreases ts.len() - i, 7int,
{
    sp_comparison(ts, i)
}

/// One statement, dispatched on its first token.
pub open spec fn sp_statement(ts: Seq<SpecToken>, i: int) -> Result<(SpecStmt, int), Seq<char>>
    decreases ts.len() - i, 8int,
{
    if i < 0 || i >= ts.len() {
        Err("Unexpected end of input"@)
    } else if is_decl_type_token(ts[i]) {
        let vt = token_type(ts[i])->Some_0;
        if i + 1 >= ts.len() {
            Err("Unexpected end of input"@)
        } else if !(ts[i + 1] is Rizz) {
            Err("Expected variable name after type"@)
        } else {
            let name = ts[i + 1]->Rizz_0;
            if i + 2 >= ts.len() {
                Err("Unexpected end of input"@)
            } else if !(ts[i + 2] is Slay) {
                Err("Expected 'slay' after variable name"@)
            } else {
                match sp_expression(ts, i + 3) {
                    Ok((e, j)) => if j >= ts.len() {
                        Err("Unexpected end of input"@)
                    } else if !(ts[j] is Semicolon) {
                        Err("Expected ';' after variable value"@)
                    } else {
                        Ok((SpecStmt::VarDecl { var_type: vt, name: name, value: e }, j + 1))
                    },
                    Err(m) => Err(m),
                }
            }
        }
    } else if ts[i] is Flex {
        match sp_expression(ts, i + 1) {
            Ok((e, j)) => if j >= ts.len() {
                Err("Unexpected end of input"@)
            } else if !(ts[j] is Semicolon) {
                Err("Expected ';' after print statement"@)
            } else {
                Ok((SpecStmt::Print { expr: e }, j + 1))
            },
            Err(m) => Err(m),
        }
    } else if ts[i] is Ohio {
        if i + 1 >= ts.len() {
            Err("Unexpected end of input"@)
        } else if !(ts[i + 1] is Semicolon) {
            Err("Expected ';' after 'ohio'"@)
        } else {
            Ok((SpecStmt::Break, i + 2))
        }
    } else if ts[i] is Yeet {
        if i + 1 >= ts.len() {
            Err("Unexpected end of input"@)
        } else if ts[i + 1] is Semicolon {
            Ok((SpecStmt::Return { expr: None }, i + 2))
        } else {
            match sp_expression(ts, i + 1) {
                Ok((e, j)) => if j >= ts.len() {
                    Err("Unexpected end of input"@)
                } else if !(ts[j] is Semicolon) {
                    Err("Expected ';' after return statement"@)
                } else {
                    Ok((SpecStmt::Return { expr: Some(e) }, j + 1))
                },
                Err(m) => Err(m),
            }
        }
    } else if ts[i] is Rizz {
        let name = ts[i]->Rizz_0;
        if i + 1 >= ts.len() {
            Err("Unexpected end of input"@)
        } else if !(ts[i + 1] is Slay) {
            Err("Expected 'slay' after variable name"@)
        } else {
            match sp_expression(ts, i + 2) {
                Ok((e, j)) => if j >= ts.len() {
                    Err("Unexpected end of input"@)
                } else if !(ts[j] is Semicolon) {
                    Err("Expected ';' after variable value"@)
                } else {
                    Ok((SpecStmt::Assignment { name: name, value: e }, j + 1))
                },
                Err(m) => Err(m),
            }
        }
    } else if ts[i] is Ong {
        match sp_expression(ts, i + 1) {
            Ok((cond, j)) => if !(i + 1 < j <= ts.len()) {
                Err("Unexpected end of input"@)
            } else if j >= ts.len() {
                Err("Unexpected end of input"@)
            } else if !(ts[j] is OpenBrace) {
                Err("Expected '{' after condition"@)
            } else {
                match sp_block(ts, j + 1) {
                    Ok((then_b, k)) => if !(j < k <= ts.len()) {
                        Err("Unexpected end of input"@)
                    } else if k >= ts.len() {
                        Err("Unexpected end of input"@)
                    } else if !(ts[k] is CloseBrace) {
                        Err("Expected '}' to end block"@)
                    } else if k + 1 < ts.len() && ts[k + 1] is Nah {
                        if k + 2 >= ts.len() {
                            Err("Unexpected end of input"@)
                        } else if !(ts[k + 2] is OpenBrace) {
                            Err("Expected '{' after 'nah'"@)
                        } else {
                            match sp_block(ts, k + 3) {
                                Ok((else_b, m)) => if !(k + 2 < m <= ts.len()) {
                                    Err("Unexpected end of input"@)
                                } else if m >= ts.len() {
                                    Err("Unexpected end of input"@)
                                } else if !(ts[m] is CloseBrace) {
                                    Err("Expected '}' to end block"@)
                                } else {
                                    Ok(
                                        (
                                            SpecStmt::If {
                                                condition: cond,
                                                then_body: then_b,
                                                else_body: Some(else_b),
                                            },
                                            m + 1,
                                        ),
                                    )
                                },
                                Err(m) => Err(m),
                            }
                        }
                    } else {
                        Ok(
                            (
                                SpecStmt::If {
                                    condition: cond,
                                    then_body: then_b,
                                    else_body: None,
                                },
                                k + 1,
                            ),
                        )
                    },
                    Err(m) => Err(m),
                }
            },
            Err(m) => Err(m),
        }
    } else if ts[i] is Mewing {
        match sp_expression(ts, i + 1) {
            Ok((cond, j)) => if !(i + 1 < j <= ts.len()) {
                Err("Unexpected end of input"@)
            } else if j >= ts.len() {
                Err("Unexpected end of input"@)
            } else if !(ts[j] is OpenBrace) {
                Err("Expected '{' after condition"@)
            } else {
                match sp_block(ts, j + 1) {
                    Ok((body, k)) => if !(j < k <= ts.len()) {
                        Err("Unexpected end of input"@)
                    } else if k >= ts.len() {
                        Err("Unexpected end of input"@)
                    } else if !(ts[k] is CloseBrace) {
                        Err("Expected '}' to end block"@)
                    } else {
                        Ok((SpecStmt::While { condition: cond, body: body }, k + 1))
                    },
                    Err(m) => Err(m),
                }
            },
            Err(m) => Err(m),
        }
    } else if ts[i] is SixSeven {
        match sp_statement(ts, i + 1) {
            Ok((init, j)) => if !(i + 1 < j <= ts.len()) {
                Err("Unexpected end of input"@)
            } else {
                match sp_expression(ts, j) {
                    Ok((cond, j2)) => if !(j < j2 <= ts.len()) {
                        Err("Unexpected end of input"@)
                    } else if j2 >= ts.len() {
                        Err("Unexpected end of input"@)
                    } else if !(ts[j2] is Semicolon) {
                        Err("Expected ';' after loop condition"@)
                    } else {
                        match sp_statement(ts, j2 + 1) {
                            Ok((incr, j3)) => if !(j2 + 1 < j3 <= ts.len()) {
                                Err("Unexpected end of input"@)
                            } else if j3 >= ts.len() {
                                Err("Unexpected end of input"@)
                            } else if !(ts[j3] is OpenBrace) {
                                Err("Expected '{' after loop increment"@)
                            } else {
                                match sp_block(ts, j3 + 1) {
                                    Ok((body, k)) => if !(j3 < k <= ts.len()) {
                                        Err("Unexpected end of input"@)
                                    } else if k >= ts.len() {
                                        Err("Unexpected end of input"@)
                                    } else if !(ts[k] is CloseBrace) {
                                        Err("Expected '}' to end block"@)
                                    } else {
                                        Ok(
                                            (
                                                SpecStmt::For {
                                                    init: Box::new(init),
                                                    condition: cond,
                                                    increment: Box::new(incr),
                                                    body: body,
                                                },
                                                k + 1,
                                            ),
                                        )
                                    },
                                    Err(m) => Err(m),
                                }
                            },
                            Err(m) => Err(m),
                        }
                    },
                    Err(m) => Err(m),
                }
            },
            Err(m) => Err(m),
        }
    } else {
        Err("Unexpected token in body: "@ + spec_token_desc(ts[i]))
    }
}

/// A statement sequence, up to but not including a closing brace.
pub open spec fn sp_block(ts: Seq<SpecToken>, i: int) -> Result<(Seq<SpecStmt>, int), Seq<char>>
    decreases ts.len() - i, 9int,
{
    if i < 0 || i >= ts.len() {
        Err("Unexpected end of input"@)
    } else if ts[i] is CloseBrace {
        Ok((Seq::empty(), i))
    } else {
        match sp_statement(ts, i) {
            Ok((s, j)) => if i < j <= ts.len() {
                match sp_block(ts, j) {
                    Ok((rest, k)) => Ok((seq![s] + rest, k)),
                    Err(m) => Err(m),
                }
            } else {
                Err("Unexpected end of input"@)
            },
            Err(m) => Err(m),
        }
    }
}

/// The parameter list after its first parameter is known to start: one or
/// more `Type identifier` pairs separated by commas, closed by `)`.
pub open spec fn sp_params_go(ts: Seq<SpecToken>, i: int) -> Result<
    (Seq<SpecParameter>, int),
    Seq<char>,
>
    decreases ts.len() - i, 0int,
{
    if i < 0 || i >= ts.len() {
        Err("Unexpected end of input"@)
    } else if token_type(ts[i]) is None {
        Err("Expected parameter type"@)
    } else if i + 1 >= ts.len() {
        Err("Unexpected end of input"@)
    } else if !(ts[i + 1] is Rizz) {
        Err("Expected parameter name after type"@)
    } else if i + 2 >= ts.len() {
        Err("Unexpected end of input"@)
    } else {
        let p = SpecParameter {
            name: ts[i + 1]->Rizz_0,
            parameter_type: token_type(ts[i])->Some_0,
        };
        match ts[i + 2] {
            SpecToken::Comma => match sp_params_go(ts, i + 3) {
                Ok((ps, j)) => Ok((seq![p] + ps, j)),
                Err(m) => Err(m),
            },
            SpecToken::CloseParen => Ok((seq![p], i + 3)),
            _ => Err("Expected ',' or ')' after parameter"@),
        }
    }
}

/// A parameter list: empty on an immediate `)`, else one or more pairs.
pub open spec fn sp_parameters(ts: Seq<SpecToken>, i: int) -> Result<
    (Seq<SpecParameter>, int),
    Seq<char>,
>
    decreases ts.len() - i, 1int,
{
    if i < 0 || i >= ts.len() {
        Err("Unexpected end of input"@)
    } else if ts[i] is CloseParen {
        Ok((Seq::empty(), i + 1))
    } else {
        sp_params_go(ts, i)
    }
}

/// One function declaration, starting at its `bussin` keyword.
pub open spec fn sp_function(ts: Seq<SpecToken>, i: int) -> Result<(SpecFunction, int), Seq<char>>
    decreases ts.len() - i, 10int,
{
    if i + 1 >= ts.len() {
        Err("Unexpected end of input"@)
    } else if token_type(ts[i + 1]) is None {
        Err("Expected return type after 'bussin'"@)
    } else {
        let rt = token_type(ts[i + 1])->Some_0;
        if i + 2 >= ts.len() {
            Err("Unexpected end of input"@)
        } else if !(ts[i + 2] is Sigma || ts[i + 2] is Rizz) {
            Err("Expected function name after type of bussin"@)
        } else {
            let name = if ts[i + 2] is Sigma {
                "sigma"@
            } else {
                ts[i + 2]->Rizz_0
            };
            if i + 3 >= ts.len() {
                Err("Unexpected end of input"@)
            } else if !(ts[i + 3] is OpenParen) {
                Err("Expected '(' after function name"@)
            } else {
                match sp_parameters(ts, i + 4) {
                    Ok((ps, j)) => if !(i + 4 <= j <= ts.len()) {
                        Err("Unexpected end of input"@)
                    } else if j >= ts.len() {
                        Err("Unexpected end of input"@)
                    } else if !(ts[j] is OpenBrace) {
                        Err("Expected '{' to start function body"@)
                    } else {
                        match sp_block(ts, j + 1) {
                            Ok((body, k)) => if !(j < k <= ts.len()) {
                                Err("Unexpected end of input"@)
                            } else if k >= ts.len() {
                                Err("Unexpected end of input"@)
                            } else if !(ts[k] is CloseBrace) {
                                Err("Expected '}' to end function body"@)
                            } else {
                                Ok(
                                    (
                                        SpecFunction {
                                            name: name,
                                            return_type: rt,
                                            parameters: ps,
                                            body: body,
                                        },
                                        k + 1,
                                    ),
                                )
                            },
                            Err(m) => Err(m),
                        }
                    },
                    Err(m) => Err(m),
                }
            }
        }
    }
}

/// The top level: function declarations until the tokens run out.
pub open spec fn sp_program(ts: Seq<SpecToken>, i: int) -> Result<Seq<SpecFunction>, Seq<char>>
    decreases ts.len() - i, 11int,
{
    if i < 0 || i >= ts.len() {
        Ok(Seq::empty())
    } else if ts[i] is Bussin {
        match sp_function(ts, i) {
            Ok((f, j)) => if i < j <= ts.len() {
                match sp_program(ts, j) {
                    Ok(rest) => Ok(seq![f] + rest),
                    Err(m) => Err(m),
                }
            } else {
                Err("Unexpected end of input"@)
            },
            Err(m) => Err(m),
        }
    } else {
        Err("Expected function declaration"@)
    }
}

/// A full parse: all top-level functions, and the program must contain at
/// least one function named by the reserved main-name.
pub open spec fn sp_parse(ts: Seq<SpecToken>) -> Result<SpecProgram, Seq<char>> {
    match sp_program(ts, 0) {
        Ok(fns) => if exists|k: int| 0 <= k < fns.len() && (#[trigger] fns[k]).name == "sigma"@ {
            Ok(SpecProgram { functions: fns })
        } else {
            Err("Program must have at least one 'bussin sigma()' function"@)
        },
        Err(m) => Err(m),
    }
}

/// Prepending a statement prepends its view.
proof fn lemma_view_block_prepend(s: Statement, ss: Seq<Statement>)
    ensures
        view_block(ss.insert(0, s)) == seq![crate::ast::view_stmt(s)] + view_block(ss),
{
    let t = ss.insert(0, s);
    crate::ast::lemma_view_block_len(t);
    crate::ast::lemma_view_block_len(ss);
    ss.insert_ensures(0, s);
    assert forall|i: int| 0 <= i < t.len() implies view_block(t)[i] == (seq![
        crate::ast::view_stmt(s),
    ] + view_block(ss))[i] by {
        if i == 0 {
            assert(t[0] == s);
        } else {
            assert(t[(i - 1) + 1] == ss[i - 1]);
        }
    }
    assert(view_block(t) =~= seq![crate::ast::view_stmt(s)] + view_block(ss));
}

/// The surface text of a token, for error messages.
fn token_desc(t: &Token) -> (r: String)
    ensures
        r@ == spec_token_desc(t@),
{
    match t {
        Token::Based => String::from_str("based"),
        Token::SuperBased => String::from_str("superBased"),
        Token::Chill => String::from_str("chill"),
        Token::Chad => String::from_str("chad"),
        Token::Vibes => String::from_str("vibes"),
        Token::Void => String::from_str("ghost"),
        Token::Cap => String::from_str("cap"),
        Token::Fr => String::from_str("fr"),
        Token::Slay => String::from_str("slay"),
        Token::Plus => String::from_str("+"),
        Token::Minus => String::from_str("-"),
        Token::Star => String::from_str("*"),
        Token::Slash => String::from_str("/"),
        Token::Equal => String::from_str("=="),
        Token::NotEqual => String::from_str("!="),
        Token::Less => String::from_str("<"),
        Token::Greater => String::from_str(">"),
        Token::LessEq => String::from_str("<="),
        Token::GreaterEq => String::from_str(">="),
        Token::Flex => String::from_str("flex"),
        Token::Yeet => String::from_str("yeet"),
        Token::SixSeven => String::from_str("sixSeven"),
        Token::Ong => String::from_str("ong"),
        Token::Nah => String::from_str("nah"),
        Token::Mewing => String::from_str("mewing"),
        Token::Ohio => String::from_str("ohio"),
        Token::Bussin => String::from_str("bussin"),
        Token::Sigma => String::from_str("sigma"),
        Token::Skibidi => String::from_str("skibidi"),
        Token::Gyatt => String::from_str("gyatt"),
        Token::Rizz(n) => n.clone(),
        Token::IntLit(v) => dec_i64(*v),
        Token::FloatLit(t) => t.clone(),
        Token::StringLit(c) => c.clone(),
        Token::CharLit(c) => {
            let mut one = String::new();
            push_char(&mut one, *c);
            proof {
                assert(one@ =~= seq![*c]);
            }
            one
        },
        Token::OpenParen => String::from_str("("),
        Token::CloseParen => String::from_str(")"),
        Token::OpenBrace => String::from_str("{"),
        Token::CloseBrace => String::from_str("}"),
        Token::Semicolon => String::from_str(";"),
        Token::Comma => String::from_str(","),
        Token::Unknown(u) => u.clone(),
    }
}

/// The source type of a type-keyword token.
fn token_to_type(t: &Token) -> (r: Option<Type>)
    ensures
        r == token_type(t@),
{
    match t {
        Token::Based => Some(Type::Based),
        Token::SuperBased => Some(Type::SuperBased),
        Token::Chill => Some(Type::Chill),
        Token::Vibes => Some(Type::Vibes),
        Token::Chad => Some(Type::Chad),
        Token::Void => Some(Type::Void),
        _ => None,
    }
}

/// Message for running out of tokens.
fn msg_eof() -> (r: String)
    ensures
        r@ == "Unexpected end of input"@,
{
    String::from_str("Unexpected end of input")
}

fn parse_primary(tokens: &Vec<Token>, index: &mut usize) -> (r: Result<Expression, String>)
    requires
        *old(index) <= tokens@.len(),
    ensures
        ({
            let sp = sp_primary(tokens_view(tokens@), *old(index) as int);
            &&& (r is Ok ==> sp is Ok && r->Ok_0@ == sp->Ok_0.0 && *final(index) == sp->Ok_0.1
                && *old(index) < *final(index) <= tokens@.len())
            &&& (r is Err ==> sp is Err && r->Err_0@ == sp->Err_0)
        }),
    decreases tokens@.len() - *old(index), 0int,
{
    let ghost ts = tokens_view(tokens@);
    let i = *index;
    proof {
        assert(tokens.len() == tokens@.len());
    }
    if i >= tokens.len() {
        return Err(msg_eof());
    }
    proof {
        assert(ts[i as int] == tokens@[i as int]@);
    }
    match &tokens[i] {
        Token::IntLit(v) => {
            let v = *v;
            *index = i + 1;
            if i32::MIN as i64 <= v && v <= i32::MAX as i64 {
                Ok(Expression::Integer(v as i32))
            } else {
                Ok(Expression::Long(v))
            }
        },
        Token::FloatLit(t) => {
            *index = i + 1;
            Ok(Expression::Float(t.clone()))
        },
        Token::StringLit(c) => {
            *index = i + 1;
            Ok(Expression::StringLit(c.clone()))
        },
        Token::CharLit(c) => {
            *index = i + 1;
            Ok(Expression::CharLit(*c))
        },
        Token::Rizz(n) => {
            *index = i + 1;
            Ok(Expression::Variable(n.clone()))
        },
        Token::OpenParen => {
            *index = i + 1;
            let e = match parse_expression(tokens, index) {
                Ok(e) => e,
                Err(m) => {
                    return Err(m);
                },
            };
            if *index >= tokens.len() {
                return Err(msg_eof());
            }
            if matches!(&tokens[*index], Token::CloseParen) {
                *index = *index + 1;
                Ok(e)
            } else {
                proof {
                    assert(ts[*index as int] == tokens@[*index as int]@);
                }
                Err(String::from_str("Expected ')' after expression"))
            }
        },
        _ => {
            let mut m = String::from_str("Expected expression, found ");
            let d = token_desc(&tokens[i]);
            m.append(d.as_str());
            Err(m)
        },
    }
}

fn parse_mul_tail(tokens: &Vec<Token>, index: &mut usize, left: Expression) -> (r: Result<
    Expression,
    String,
>)
    requires
        *old(index) <= tokens@.len(),
    ensures
        ({
            let sp = sp_mul_tail(tokens_view(tokens@), *old(index) as int, left@);
            &&& (r is Ok ==> sp is Ok && r->Ok_0@ == sp->Ok_0.0 && *final(index) == sp->Ok_0.1
                && *old(index) <= *final(index) <= tokens@.len())
            &&& (r is Err ==> sp is Err && r->Err_0@ == sp->Err_0)
        }),
    decreases tokens@.len() - *old(index), 1int,
{
    let ghost ts = tokens_view(tokens@);
    let i = *index;
    proof {
        assert(tokens.len() == tokens@.len());
    }
    if i < tokens.len() {
        proof {
            assert(ts[i as int] == tokens@[i as int]@);
        }
        let is_star = matches!(&tokens[i], Token::Star);
        let is_slash = matches!(&tokens[i], Token::Slash);
        if is_star || is_slash {
            let op = if is_star {
                BinOp::Mul
            } else {
                BinOp::Div
            };
            *index = i + 1;
            match parse_primary(tokens, index) {
                Ok(right) => {
                    let combined = Expression::BinOp {
                        left: Box::new(left),
                        op: op,
                        right: Box::new(right),
                    };
                    return parse_mul_tail(tokens, index, combined);
                },
                Err(m) => {
                    return Err(m);
                },
            }
        }
    }
    Ok(left)
}

fn parse_multiplicative(tokens: &Vec<Token>, index: &mut usize) -> (r: Result<Expression, String>)
    requires
        *old(index) <= tokens@.len(),
    ensures
        ({
            let sp = sp_multiplicative(tokens_view(tokens@), *old(index) as int);
            &&& (r is Ok ==> sp is Ok && r->Ok_0@ == sp->Ok_0.0 && *final(index) == sp->Ok_0.1
                && *old(index) < *final(index) <= tokens@.len())
            &&& (r is Err ==> sp is Err && r->Err_0@ == sp->Err_0)
        }),
    decreases tokens@.len() - *old(index), 2int,
{
    match parse_primary(tokens, index) {
        Ok(left) => parse_mul_tail(tokens, index, left),
        Err(m) => Err(m),
    }
}

fn parse_add_tail(tokens: &Vec<Token>, index: &mut usize, left: Expression) -> (r: Result<
    Expression,
    String,
>)
    requires
        *old(index) <= tokens@.len(),
    ensures
        ({
            let sp = sp_add_tail(tokens_view(tokens@), *old(index) as int, left@);
            &&& (r is Ok ==> sp is Ok && r->Ok_0@ == sp->Ok_0.0 && *final(index) == sp->Ok_0.1
                && *old(index) <= *final(index) <= tokens@.len())
            &&& (r is Err ==> sp is Err && r->Err_0@ == sp->Err_0)
        }),
    decreases tokens@.len() - *old(index), 3int,
{
    let ghost ts = tokens_view(tokens@);
    let i = *index;
    proof {
        assert(tokens.len() == tokens@.len());
    }
    if i < tokens.len() {
        proof {
            assert(ts[i as int] == tokens@[i as int]@);
        }
        let is_plus = matches!(&tokens[i], Token::Plus);
        let is_minus = matches!(&tokens[i], Token::Minus);
        if is_plus || is_minus {
            let op = if is_plus {
                BinOp::Add
            } else {
                BinOp::Sub
            };
            *index = i + 1;
            match parse_multiplicative(tokens, index) {
                Ok(right) => {
                    let combined = Expression::BinOp {
                        left: Box::new(left),
                        op: op,
                        right: Box::new(right),
                    };
                    return parse_add_tail(tokens, index, combined);
                },
                Err(m) => {
                    return Err(m);
                },
            }
        }
    }
    Ok(left)
}

fn parse_additive(tokens: &Vec<Token>, index: &mut usize) -> (r: Result<Expression, String>)
    requires
        *old(index) <= tokens@.len(),
    ensures
        ({
            let sp = sp_additive(tokens_view(tokens@), *old(index) as int);
            &&& (r is Ok ==> sp is Ok && r->Ok_0@ == sp->Ok_0.0 && *final(index) == sp->Ok_0.1
                && *old(index) < *final(index) <= tokens@.len())
            &&& (r is Err ==> sp is Err && r->Err_0@ == sp->Err_0)
        }),
    decreases tokens@.len() - *old(index), 4int,
{
    match parse_multiplicative(tokens, index) {
        Ok(left) => parse_add_tail(tokens, index, left),
        Err(m) => Err(m),
    }
}

/// The comparison operator of a token, if it is one.
fn token_cmp_op(t: &Token) -> (r: Option<BinOp>)
    ensures
        r == comparison_op(t@),
{
    match t {
        Token::Equal => Some(BinOp::Equal),
        Token::NotEqual => Some(BinOp::NotEqual),
        Token::Less => Some(BinOp::Less),
        Token::Greater => Some(BinOp::Greater),
        Token::LessEq => Some(BinOp::LessEq),
        Token::GreaterEq => Some(BinOp::GreaterEq),
        _ => None,
    }
}

fn parse_cmp_tail(tokens: &Vec<Token>, index: &mut usize, left: Expression) -> (r: Result<
    Expression,
    String,
>)
    requires
        *old(index) <= tokens@.len(),
    ensures
        ({
            let sp = sp_cmp_tail(tokens_view(tokens@), *old(index) as int, left@);
            &&& (r is Ok ==> sp is Ok && r->Ok_0@ == sp->Ok_0.0 && *final(index) == sp->Ok_0.1
                && *old(index) <= *final(index) <= tokens@.len())
            &&& (r is Err ==> sp is Err && r->Err_0@ == sp->Err_0)
        }),
    decreases tokens@.len() - *old(index), 5int,
{
    let ghost ts = tokens_view(tokens@);
    let i = *index;
    proof {
        assert(tokens.len() == tokens@.len());
    }
    if i < tokens.len() {
        proof {
            assert(ts[i as int] == tokens@[i as int]@);
        }
        match token_cmp_op(&tokens[i]) {
            Some(op) => {
                *index = i + 1;
                match parse_additive(tokens, index) {
                    Ok(right) => {
                        let combined = Expression::BinOp {
                            left: Box::new(left),
                            op: op,
                            right: Box::new(right),
                        };
                        return parse_cmp_tail(tokens, index, combined);
                    },
                    Err(m) => {
                        return Err(m);
                    },
                }
            },
            None => {},
        }
    }
    Ok(left)
}

fn parse_comparison(tokens: &Vec<Token>, index: &mut usize) -> (r: Result<Expression, String>)
    requires
        *old(index) <= tokens@.len(),
    ensures
        ({
            let sp = sp_comparison(tokens_view(tokens@), *old(index) as int);
            &&& (r is Ok ==> sp is Ok && r->Ok_0@ == sp->Ok_0.0 && *final(index) == sp->Ok_0.1
                && *old(index) < *final(index) <= tokens@.len())
            &&& (r is Err ==> sp is Err && r->Err_0@ == sp->Err_0)
        }),
    decreases tokens@.len() - *old(index), 6int,
{
    match parse_additive(tokens, index) {
        Ok(left) => parse_cmp_tail(tokens, index, left),
        Err(m) => Err(m),
    }
}

/// Entry point for expressions: the lowest precedence level.
fn parse_expression(tokens: &Vec<Token>, index: &mut usize) -> (r: Result<Expression, String>)
    requires
        *old(index) <= tokens@.len(),
    ensures
        ({
            let sp = sp_expression(tokens_view(tokens@), *old(index) as int);
            &&& (r is Ok ==> sp is Ok && r->Ok_0@ == sp->Ok_0.0 && *final(index) == sp->Ok_0.1
                && *old(index) < *final(index) <= tokens@.len())
            &&& (r is Err ==> sp is Err && r->Err_0@ == sp->Err_0)
        }),
    decreases tokens@.len() - *old(index), 7int,
{
    parse_comparison(tokens, index)
}

fn parse_var_decl(tokens: &Vec<Token>, index: &mut usize) -> (r: Result<Statement, String>)
    requires
        *old(index) < tokens@.len(),
        is_decl_type_token(tokens_view(tokens@)[*old(index) as int]),
    ensures
        ({
            let sp = sp_statement(tokens_view(tokens@), *old(index) as int);
            &&& (r is Ok ==> sp is Ok && r->Ok_0@ == sp->Ok_0.0 && *final(index) == sp->Ok_0.1
                && *old(index) < *final(index) <= tokens@.len())
            &&& (r is Err ==> sp is Err && r->Err_0@ == sp->Err_0)
        }),
    decreases tokens@.len() - *old(index), 8int,
{
    let ghost ts = tokens_view(tokens@);
    let i = *index;
    proof {
        assert(tokens.len() == tokens@.len());
    }
    proof {
        assert(ts[i as int] == tokens@[i as int]@);
    }
    let var_type = token_to_type(&tokens[i]).unwrap();
    if i + 1 >= tokens.len() {
        return Err(msg_eof());
    }
    proof {
        assert(ts[i as int + 1] == tokens@[i as int + 1]@);
    }
    let name = match &tokens[i + 1] {
        Token::Rizz(n) => n.clone(),
        _ => {
            return Err(String::from_str("Expected variable name after type"));
        },
    };
    if i + 2 >= tokens.len() {
        return Err(msg_eof());
    }
    proof {
        assert(ts[i as int + 2] == tokens@[i as int + 2]@);
    }
    if !matches!(&tokens[i + 2], Token::Slay) {
        return Err(String::from_str("Expected 'slay' after variable name"));
    }
    *index = i + 3;
    let value = match parse_expression(tokens, index) {
        Ok(e) => e,
        Err(m) => {
            return Err(m);
        },
    };
    if *index >= tokens.len() {
        return Err(msg_eof());
    }
    proof {
        assert(ts[*index as int] == tokens@[*index as int]@);
    }
    if !matches!(&tokens[*index], Token::Semicolon) {
        return Err(String::from_str("Expected ';' after variable value"));
    }
    *index = *index + 1;
    Ok(Statement::VarDecl { var_type: var_type, name: name, value: value })
}

fn parse_assignment(tokens: &Vec<Token>, index: &mut usize) -> (r: Result<Statement, String>)
    requires
        *old(index) < tokens@.len(),
        tokens_view(tokens@)[*old(index) as int] is Rizz,
    ensures
        ({
            let sp = sp_statement(tokens_view(tokens@), *old(index) as int);
            &&& (r is Ok ==> sp is Ok && r->Ok_0@ == sp->Ok_0.0 && *final(index) == sp->Ok_0.1
                && *old(index) < *final(index) <= tokens@.len())
            &&& (r is Err ==> sp is Err && r->Err_0@ == sp->Err_0)
        }),
    decreases tokens@.len() - *old(index), 8int,
{
    let ghost ts = tokens_view(tokens@);
    let i = *index;
    proof {
        assert(tokens.len() == tokens@.len());
    }
    proof {
        assert(ts[i as int] == tokens@[i as int]@);
    }
    let name = match &tokens[i] {
        Token::Rizz(n) => n.clone(),
        _ => {
            return Err(String::from_str("Expected variable name in assignment"));
        },
    };
    if i + 1 >= tokens.len() {
        return Err(msg_eof());
    }
    proof {
        assert(ts[i as int + 1] == tokens@[i as int + 1]@);
    }
    if !matches!(&tokens[i + 1], Token::Slay) {
        return Err(String::from_str("Expected 'slay' after variable name"));
    }
    *index = i + 2;
    let value = match parse_expression(tokens, index) {
        Ok(e) => e,
        Err(m) => {
            return Err(m);
        },
    };
    if *index >= tokens.len() {
        return Err(msg_eof());
    }
    proof {
        assert(ts[*index as int] == tokens@[*index as int]@);
    }
    if !matches!(&tokens[*index], Token::Semicolon) {
        return Err(String::from_str("Expected ';' after variable value"));
    }
    *index = *index + 1;
    Ok(Statement::Assignment { name: name, value: value })
}

fn parse_print(tokens: &Vec<Token>, index: &mut usize) -> (r: Result<Statement, String>)
    requires
        *old(index) < tokens@.len(),
        tokens_view(tokens@)[*old(index) as int] is Flex,
    ensures
        ({
            let sp = sp_statement(tokens_view(tokens@), *old(index) as int);
            &&& (r is Ok ==> sp is Ok && r->Ok_0@ == sp->Ok_0.0 && *final(index) == sp->Ok_0.1
                && *old(index) < *final(index) <= tokens@.len())
            &&& (r is Err ==> sp is Err && r->Err_0@ == sp->Err_0)
        }),
    decreases tokens@.len() - *old(index), 8int,
{
    let ghost ts = tokens_view(tokens@);
    let i = *index;
    proof {
        assert(tokens.len() == tokens@.len());
    }
    *index = i + 1;
    let expr = match parse_expression(tokens, index) {
        Ok(e) => e,
        Err(m) => {
            return Err(m);
        },
    };
    if *index >= tokens.len() {
        return Err(msg_eof());
    }
    proof {
        assert(ts[*index as int] == tokens@[*index as int]@);
    }
    if !matches!(&tokens[*index], Token::Semicolon) {
        return Err(String::from_str("Expected ';' after print statement"));
    }
    *index = *index + 1;
    Ok(Statement::Print { expr: expr })
}

fn parse_return(tokens: &Vec<Token>, index: &mut usize) -> (r: Result<Statement, String>)
    requires
        *old(index) < tokens@.len(),
        tokens_view(tokens@)[*old(index) as int] is Yeet,
    ensures
        ({
            let sp = sp_statement(tokens_view(tokens@), *old(index) as int);
            &&& (r is Ok ==> sp is Ok && r->Ok_0@ == sp->Ok_0.0 && *final(index) == sp->Ok_0.1
                && *old(index) < *final(index) <= tokens@.len())
            &&& (r is Err ==> sp is Err && r->Err_0@ == sp->Err_0)
        }),
    decreases tokens@.len() - *old(index), 8int,
{
    let ghost ts = tokens_view(tokens@);
    let i = *index;
    proof {
        assert(tokens.len() == tokens@.len());
    }
    if i + 1 >= tokens.len() {
        return Err(msg_eof());
    }
    proof {
        assert(ts[i as int + 1] == tokens@[i as int + 1]@);
    }
    if matches!(&tokens[i + 1], Token::Semicolon) {
        *index = i + 2;
        return Ok(Statement::Return { expr: None });
    }
    *index = i + 1;
    let e = match parse_expression(tokens, index) {
        Ok(e) => e,
        Err(m) => {
            return Err(m);
        },
    };
    if *index >= tokens.len() {
        return Err(msg_eof());
    }
    proof {
        assert(ts[*index as int] == tokens@[*index as int]@);
    }
    if !matches!(&tokens[*index], Token::Semicolon) {
        return Err(String::from_str("Expected ';' after return statement"));
    }
    *index = *index + 1;
    Ok(Statement::Return { expr: Some(e) })
}

fn parse_if(tokens: &Vec<Token>, index: &mut usize) -> (r: Result<Statement, String>)
    requires
        *old(index) < tokens@.len(),
        tokens_view(tokens@)[*old(index) as int] is Ong,
    ensures
        ({
            let sp = sp_statement(tokens_view(tokens@), *old(index) as int);
            &&& (r is Ok ==> sp is Ok && r->Ok_0@ == sp->Ok_0.0 && *final(index) == sp->Ok_0.1
                && *old(index) < *final(index) <= tokens@.len())
            &&& (r is Err ==> sp is Err && r->Err_0@ == sp->Err_0)
        }),
    decreases tokens@.len() - *old(index), 8int,
{
    let ghost ts = tokens_view(tokens@);
    let i = *index;
    proof {
        assert(tokens.len() == tokens@.len());
    }
    *index = i + 1;
    let condition = match parse_expression(tokens, index) {
        Ok(e) => e,
        Err(m) => {
            return Err(m);
        },
    };
    if *index >= tokens.len() {
        return Err(msg_eof());
    }
    proof {
        assert(ts[*index as int] == tokens@[*index as int]@);
    }
    if !matches!(&tokens[*index], Token::OpenBrace) {
        return Err(String::from_str("Expected '{' after condition"));
    }
    *index = *index + 1;
    let then_body = match parse_body(tokens, index) {
        Ok(b) => b,
        Err(m) => {
            return Err(m);
        },
    };
    if *index >= tokens.len() {
        return Err(msg_eof());
    }
    proof {
        assert(ts[*index as int] == tokens@[*index as int]@);
    }
    if !matches!(&tokens[*index], Token::CloseBrace) {
        return Err(String::from_str("Expected '}' to end block"));
    }
    let k = *index;
    let mut has_else = false;
    if k + 1 < tokens.len() {
        proof {
            assert(ts[k as int + 1] == tokens@[k as int + 1]@);
        }
        if matches!(&tokens[k + 1], Token::Nah) {
            has_else = true;
        }
    }
    if has_else {
        if k + 2 >= tokens.len() {
            return Err(msg_eof());
        }
        proof {
            assert(ts[k as int + 2] == tokens@[k as int + 2]@);
        }
        if !matches!(&tokens[k + 2], Token::OpenBrace) {
            return Err(String::from_str("Expected '{' after 'nah'"));
        }
        *index = k + 3;
        let else_body = match parse_body(tokens, index) {
            Ok(b) => b,
            Err(m) => {
                return Err(m);
            },
        };
        if *index >= tokens.len() {
            return Err(msg_eof());
        }
        proof {
            assert(ts[*index as int] == tokens@[*index as int]@);
        }
        if !matches!(&tokens[*index], Token::CloseBrace) {
            return Err(String::from_str("Expected '}' to end block"));
        }
        *index = *index + 1;
        Ok(
            Statement::If {
                condition: condition,
                then_body: then_body,
                else_body: Some(else_body),
            },
        )
    } else {
        *index = k + 1;
        Ok(Statement::If { condition: condition, then_body: then_body, else_body: None })
    }
}

fn parse_while(tokens: &Vec<Token>, index: &mut usize) -> (r: Result<Statement, String>)
    requires
        *old(index) < tokens@.len(),
        tokens_view(tokens@)[*old(index) as int] is Mewing,
    ensures
        ({
            let sp = sp_statement(tokens_view(tokens@), *old(index) as int);
            &&& (r is Ok ==> sp is Ok && r->Ok_0@ == sp->Ok_0.0 && *final(index) == sp->Ok_0.1
                && *old(index) < *final(index) <= tokens@.len())
            &&& (r is Err ==> sp is Err && r->Err_0@ == sp->Err_0)
        }),
    decreases tokens@.len() - *old(index), 8int,
{
    let ghost ts = tokens_view(tokens@);
    let i = *index;
    proof {
        assert(tokens.len() == tokens@.len());
    }
    *index = i + 1;
    let condition = match parse_expression(tokens, index) {
        Ok(e) => e,
        Err(m) => {
            return Err(m);
        },
    };
    if *index >= tokens.len() {
        return Err(msg_eof());
    }
    proof {
        assert(ts[*index as int] == tokens@[*index as int]@);
    }
    if !matches!(&tokens[*index], Token::OpenBrace) {
        return Err(String::from_str("Expected '{' after condition"));
    }
    *index = *index + 1;
    let body = match parse_body(tokens, index) {
        Ok(b) => b,
        Err(m) => {
            return Err(m);
        },
    };
    if *index >= tokens.len() {
        return Err(msg_eof());
    }
    proof {
        assert(ts[*index as int] == tokens@[*index as int]@);
    }
    if !matches!(&tokens[*index], Token::CloseBrace) {
        return Err(String::from_str("Expected '}' to end block"));
    }
    *index = *index + 1;
    Ok(Statement::While { condition: condition, body: body })
}

fn parse_for(tokens: &Vec<Token>, index: &mut usize) -> (r: Result<Statement, String>)
    requires
        *old(index) < tokens@.len(),
        tokens_view(tokens@)[*old(index) as int] is SixSeven,
    ensures
        ({
            let sp = sp_statement(tokens_view(tokens@), *old(index) as int);
            &&& (r is Ok ==> sp is Ok && r->Ok_0@ == sp->Ok_0.0 && *final(index) == sp->Ok_0.1
                && *old(index) < *final(index) <= tokens@.len())
            &&& (r is Err ==> sp is Err && r->Err_0@ == sp->Err_0)
        }),
    decreases tokens@.len() - *old(index), 8int,
{
    let ghost ts = tokens_view(tokens@);
    let i = *index;
    proof {
        assert(tokens.len() == tokens@.len());
    }
    *index = i + 1;
    let init = match parse_statement(tokens, index) {
        Ok(s) => s,
        Err(m) => {
            return Err(m);
        },
    };
    let condition = match parse_expression(tokens, index) {
        Ok(e) => e,
        Err(m) => {
            return Err(m);
        },
    };
    if *index >= tokens.len() {
        return Err(msg_eof());
    }
    proof {
        assert(ts[*index as int] == tokens@[*index as int]@);
    }
    if !matches!(&tokens[*index], Token::Semicolon) {
        return Err(String::from_str("Expected ';' after loop condition"));
    }
    *index = *index + 1;
    let increment = match parse_statement(tokens, index) {
        Ok(s) => s,
        Err(m) => {
            return Err(m);
        },
    };
    if *index >= tokens.len() {
        return Err(msg_eof());
    }
    proof {
        assert(ts[*index as int] == tokens@[*index as int]@);
    }
    if !matches!(&tokens[*index], Token::OpenBrace) {
        return Err(String::from_str("Expected '{' after loop increment"));
    }
    *index = *index + 1;
    let body = match parse_body(tokens, index) {
        Ok(b) => b,
        Err(m) => {
            return Err(m);
        },
    };
    if *index >= tokens.len() {
        return Err(msg_eof());
    }
    proof {
        assert(ts[*index as int] == tokens@[*index as int]@);
    }
    if !matches!(&tokens[*index], Token::CloseBrace) {
        return Err(String::from_str("Expected '}' to end block"));
    }
    *index = *index + 1;
    Ok(
        Statement::For {
            init: Box::new(init),
            condition: condition,
            increment: Box::new(increment),
            body: body,
        },
    )
}

/// One statement, dispatched on its first token.
fn parse_statement(tokens: &Vec<Token>, index: &mut usize) -> (r: Result<Statement, String>)
    requires
        *old(index) <= tokens@.len(),
    ensures
        ({
            let sp = sp_statement(tokens_view(tokens@), *old(index) as int);
            &&& (r is Ok ==> sp is Ok && r->Ok_0@ == sp->Ok_0.0 && *final(index) == sp->Ok_0.1
                && *old(index) < *final(index) <= tokens@.len())
            &&& (r is Err ==> sp is Err && r->Err_0@ == sp->Err_0)
        }),
    decreases tokens@.len() - *old(index), 9int,
{
    let ghost ts = tokens_view(tokens@);
    let i = *index;
    proof {
        assert(tokens.len() == tokens@.len());
    }
    if i >= tokens.len() {
        return Err(msg_eof());
    }
    proof {
        assert(ts[i as int] == tokens@[i as int]@);
    }
    match &tokens[i] {
        Token::Based | Token::SuperBased | Token::Chill | Token::Vibes | Token::Chad =>
            parse_var_decl(tokens, index),
        Token::Flex => parse_print(tokens, index),
        Token::Ohio => {
            if i + 1 >= tokens.len() {
                return Err(msg_eof());
            }
            proof {
                assert(ts[i as int + 1] == tokens@[i as int + 1]@);
            }
            if !matches!(&tokens[i + 1], Token::Semicolon) {
                return Err(String::from_str("Expected ';' after 'ohio'"));
            }
            *index = i + 2;
            Ok(Statement::Break)
        },
        Token::Yeet => parse_return(tokens, index),
        Token::Rizz(_) => parse_assignment(tokens, index),
        Token::Ong => parse_if(tokens, index),
        Token::Mewing => parse_while(tokens, index),
        Token::SixSeven => parse_for(tokens, index),
        _ => {
            let mut m = String::from_str("Unexpected token in body: ");
            let d = token_desc(&tokens[i]);
            m.append(d.as_str());
            Err(m)
        },
    }
}

/// A statement sequence up to, but not consuming, a closing brace.
fn parse_body(tokens: &Vec<Token>, index: &mut usize) -> (r: Result<Vec<Statement>, String>)
    requires
        *old(index) <= tokens@.len(),
    ensures
        ({
            let sp = sp_block(tokens_view(tokens@), *old(index) as int);
            &&& (r is Ok ==> sp is Ok && view_block(r->Ok_0@) == sp->Ok_0.0 && *final(index)
                == sp->Ok_0.1 && *old(index) <= *final(index) <= tokens@.len())
            &&& (r is Err ==> sp is Err && r->Err_0@ == sp->Err_0)
        }),
    decreases tokens@.len() - *old(index), 10int,
{
    let ghost ts = tokens_view(tokens@);
    let i = *index;
    proof {
        assert(tokens.len() == tokens@.len());
    }
    if i >= tokens.len() {
        return Err(msg_eof());
    }
    proof {
        assert(ts[i as int] == tokens@[i as int]@);
    }
    if matches!(&tokens[i], Token::CloseBrace) {
        let stmts: Vec<Statement> = Vec::new();
        proof {
            assert(view_block(stmts@) =~= Seq::<SpecStmt>::empty());
        }
        return Ok(stmts);
    }
    match parse_statement(tokens, index) {
        Ok(s) => match parse_body(tokens, index) {
            Ok(rest) => {
                let mut rest = rest;
                let ghost rest0 = rest@;
                rest.insert(0, s);
                proof {
                    lemma_view_block_prepend(s, rest0);
                }
                Ok(rest)
            },
            Err(m) => Err(m),
        },
        Err(m) => Err(m),
    }
}

/// One or more `Type identifier` pairs separated by commas, closed by `)`.
fn parse_params_go(tokens: &Vec<Token>, index: &mut usize) -> (r: Result<Vec<Parameter>, String>)
    requires
        *old(index) <= tokens@.len(),
    ensures
        ({
            let sp = sp_params_go(tokens_view(tokens@), *old(index) as int);
            &&& (r is Ok ==> sp is Ok && view_params(r->Ok_0@) == sp->Ok_0.0 && *final(index)
                == sp->Ok_0.1 && *old(index) < *final(index) <= tokens@.len())
            &&& (r is Err ==> sp is Err && r->Err_0@ == sp->Err_0)
        }),
    decreases tokens@.len() - *old(index), 0int,
{
    let ghost ts = tokens_view(tokens@);
    let i = *index;
    proof {
        assert(tokens.len() == tokens@.len());
    }
    if i >= tokens.len() {
        return Err(msg_eof());
    }
    proof {
        assert(ts[i as int] == tokens@[i as int]@);
    }
    let parameter_type = match token_to_type(&tokens[i]) {
        Some(t) => t,
        None => {
            return Err(String::from_str("Expected parameter type"));
        },
    };
    if i + 1 >= tokens.len() {
        return Err(msg_eof());
    }
    proof {
        assert(ts[i as int + 1] == tokens@[i as int + 1]@);
    }
    let name = match &tokens[i + 1] {
        Token::Rizz(n) => n.clone(),
        _ => {
            return Err(String::from_str("Expected parameter name after type"));
        },
    };
    if i + 2 >= tokens.len() {
        return Err(msg_eof());
    }
    proof {
        assert(ts[i as int + 2] == tokens@[i as int + 2]@);
    }
    let p = Parameter { name: name, parameter_type: parameter_type };
    match &tokens[i + 2] {
        Token::Comma => {
            *index = i + 3;
            match parse_params_go(tokens, index) {
                Ok(ps) => {
                    let mut ps = ps;
                    let ghost ps0 = ps@;
                    ps.insert(0, p);
                    proof {
                        ps0.insert_ensures(0, p);
                        assert(view_params(ps@) =~= seq![p@] + view_params(ps0));
                    }
                    Ok(ps)
                },
                Err(m) => Err(m),
            }
        },
        Token::CloseParen => {
            *index = i + 3;
            let mut ps: Vec<Parameter> = Vec::new();
            ps.push(p);
            proof {
                assert(view_params(ps@) =~= seq![p@]);
            }
            Ok(ps)
        },
        _ => Err(String::from_str("Expected ',' or ')' after parameter")),
    }
}

/// A parameter list: empty on an immediate `)`, else one or more pairs.
fn parse_parameters(tokens: &Vec<Token>, index: &mut usize) -> (r: Result<Vec<Parameter>, String>)
    requires
        *old(index) <= tokens@.len(),
    ensures
        ({
            let sp = sp_parameters(tokens_view(tokens@), *old(index) as int);
            &&& (r is Ok ==> sp is Ok && view_params(r->Ok_0@) == sp->Ok_0.0 && *final(index)
                == sp->Ok_0.1 && *old(index) < *final(index) <= tokens@.len())
            &&& (r is Err ==> sp is Err && r->Err_0@ == sp->Err_0)
        }),
    decreases tokens@.len() - *old(index), 1int,
{
    let ghost ts = tokens_view(tokens@);
    let i = *index;
    proof {
        assert(tokens.len() == tokens@.len());
    }
    if i >= tokens.len() {
        return Err(msg_eof());
    }
    proof {
        assert(ts[i as int] == tokens@[i as int]@);
    }
    if matches!(&tokens[i], Token::CloseParen) {
        *index = i + 1;
        let ps: Vec<Parameter> = Vec::new();
        proof {
            assert(view_params(ps@) =~= Seq::<SpecParameter>::empty());
        }
        return Ok(ps);
    }
    parse_params_go(tokens, index)
}

/// One function declaration, the cursor on its `bussin` keyword.
fn parse_function(tokens: &Vec<Token>, index: &mut usize) -> (r: Result<Function, String>)
    requires
        *old(index) <= tokens@.len(),
    ensures
        ({
            let sp = sp_function(tokens_view(tokens@), *old(index) as int);
            &&& (r is Ok ==> sp is Ok && r->Ok_0@ == sp->Ok_0.0 && *final(index) == sp->Ok_0.1
                && *old(index) < *final(index) <= tokens@.len())
            &&& (r is Err ==> sp is Err && r->Err_0@ == sp->Err_0)
        }),
    decreases tokens@.len() - *old(index), 11int,
{
    let ghost ts = tokens_view(tokens@);
    let i = *index;
    proof {
        assert(tokens.len() == tokens@.len());
    }
    if i >= tokens.len() {
        return Err(msg_eof());
    }
    if i + 1 >= tokens.len() {
        return Err(msg_eof());
    }
    proof {
        assert(ts[i as int + 1] == tokens@[i as int + 1]@);
    }
    let return_type = match token_to_type(&tokens[i + 1]) {
        Some(t) => t,
        None => {
            return Err(String::from_str("Expected return type after 'bussin'"));
        },
    };
    if i + 2 >= tokens.len() {
        return Err(msg_eof());
    }
    proof {
        assert(ts[i as int + 2] == tokens@[i as int + 2]@);
    }
    let name = match &tokens[i + 2] {
        Token::Sigma => String::from_str("sigma"),
        Token::Rizz(n) => n.clone(),
        _ => {
            return Err(String::from_str("Expected function name after type of bussin"));
        },
    };
    if i + 3 >= tokens.len() {
        return Err(msg_eof());
    }
    proof {
        assert(ts[i as int + 3] == tokens@[i as int + 3]@);
    }
    if !matches!(&tokens[i + 3], Token::OpenParen) {
        return Err(String::from_str("Expected '(' after function name"));
    }
    *index = i + 4;
    let parameters = match parse_parameters(tokens, index) {
        Ok(ps) => ps,
        Err(m) => {
            return Err(m);
        },
    };
    if *index >= tokens.len() {
        return Err(msg_eof());
    }
    proof {
        assert(ts[*index as int] == tokens@[*index as int]@);
    }
    if !matches!(&tokens[*index], Token::OpenBrace) {
        return Err(String::from_str("Expected '{' to start function body"));
    }
    *index = *index + 1;
    let body = match parse_body(tokens, index) {
        Ok(b) => b,
        Err(m) => {
            return Err(m);
        },
    };
    if *index >= tokens.len() {
        return Err(msg_eof());
    }
    proof {
        assert(ts[*index as int] == tokens@[*index as int]@);
    }
    if !matches!(&tokens[*index], Token::CloseBrace) {
        return Err(String::from_str("Expected '}' to end function body"));
    }
    *index = *index + 1;
    Ok(Function { name: name, return_type: return_type, parameters: parameters, body: body })
}

/// The remaining top-level function declarations.
fn parse_program_rest(tokens: &Vec<Token>, index: &mut usize) -> (r: Result<Vec<Function>, String>)
    requires
        *old(index) <= tokens@.len(),
    ensures
        ({
            let sp = sp_program(tokens_view(tokens@), *old(index) as int);
            &&& (r is Ok ==> sp is Ok && crate::ast::view_functions(r->Ok_0@) == sp->Ok_0)
            &&& (r is Err ==> sp is Err && r->Err_0@ == sp->Err_0)
        }),
    decreases tokens@.len() - *old(index), 12int,
{
    let ghost ts = tokens_view(tokens@);
    let i = *index;
    proof {
        assert(tokens.len() == tokens@.len());
    }
    if i >= tokens.len() {
        let fs: Vec<Function> = Vec::new();
        proof {
            assert(crate::ast::view_functions(fs@) =~= Seq::<SpecFunction>::empty());
        }
        return Ok(fs);
    }
    proof {
        assert(ts[i as int] == tokens@[i as int]@);
    }
    if matches!(&tokens[i], Token::Bussin) {
        match parse_function(tokens, index) {
            Ok(f) => match parse_program_rest(tokens, index) {
                Ok(rest) => {
                    let mut rest = rest;
                    let ghost rest0 = rest@;
                    rest.insert(0, f);
                    proof {
                        rest0.insert_ensures(0, f);
                        assert(crate::ast::view_functions(rest@) =~= seq![f@]
                            + crate::ast::view_functions(rest0));
                    }
                    Ok(rest)
                },
                Err(m) => Err(m),
            },
            Err(m) => Err(m),
        }
    } else {
        Err(String::from_str("Expected function declaration"))
    }
}

/// Consumes the full token sequence and produces a [`Program`], or fails
/// with a descriptive error.  The program must declare at least one
/// function named by the reserved main-name.
pub fn parse(tokens: Vec<Token>) -> (r: Result<Program, String>)
    ensures
        ({
            let sp = sp_parse(tokens_view(tokens@));
            &&& (r is Ok ==> sp is Ok && r->Ok_0@ == sp->Ok_0)
            &&& (r is Err ==> sp is Err && r->Err_0@ == sp->Err_0)
        }),
{
    let mut index: usize = 0;
    let functions = match parse_program_rest(&tokens, &mut index) {
        Ok(fs) => fs,
        Err(m) => {
            return Err(m);
        },
    };
    let ghost fns = crate::ast::view_functions(functions@);
    let n = functions.len();
    let mut has_main = false;
    let mut k: usize = 0;
    while k < n
        invariant
            k <= n,
            n == functions@.len(),
            fns == crate::ast::view_functions(functions@),
            has_main == exists|j: int| 0 <= j < k && (#[trigger] fns[j]).name == "sigma"@,
        decreases n - k,
    {
        proof {
            assert(fns[k as int] == functions@[k as int]@);
        }
        if crate::chars::str_eq(functions[k].name.as_str(), "sigma") {
            has_main = true;
        }
        k = k + 1;
    }
    if has_main {
        Ok(Program { functions: functions })
    } else {
        Err(String::from_str("Program must have at least one 'bussin sigma()' function"))
    }
}

} // verus!
