//! The abstract syntax tree: tagged variants for expressions, statements,
//! functions and programs, together with their mathematical views.
//!
//! Every executable node carries `String` names; its view replaces each
//! `String` by its character sequence, each `Vec` by a `Seq`, so that
//! contracts can speak of the tree as a pure value.
use vstd::prelude::*;

verus! {

/// The closed set of source-language types.
#[derive(Clone, Copy, Debug, PartialEq, Eq, Structural)]
pub enum Type {
    /// 32-bit integer ("based")
    Based,
    /// 64-bit integer ("superBased")
    SuperBased,
    /// floating point ("chill"); recognized by the front end, not lowered
    Chill,
    /// string reference ("vibes")
    Vibes,
    /// character ("chad")
    Chad,
    /// void ("ghost")
    Void,
}

/// Binary operators, arithmetic and comparison.
#[derive(Clone, Copy, Debug, PartialEq, Eq, Structural)]
pub enum BinOp {
    Add,
    Sub,
    Mul,
    Div,
    Equal,
    NotEqual,
    Less,
    Greater,
    LessEq,
    GreaterEq,
}

/// An expression node.  Floating literals keep their source text: the code
/// generator refuses to lower them, and no stage computes with their value.
#[derive(Debug, PartialEq)]
pub enum Expression {
    /// 32-bit integer literal
    Integer(i32),
    /// 64-bit integer literal
    Long(i64),
    /// floating literal, kept as its source text
    Float(String),
    /// string literal
    StringLit(String),
    /// character literal
    CharLit(char),
    /// reference to a variable
    Variable(String),
    /// binary operation `left op right`
    BinOp { left: Box<Expression>, op: BinOp, right: Box<Expression> },
}

/// A statement node.
#[derive(Debug, PartialEq)]
pub enum Statement {
    /// `Type name slay value ;`
    VarDecl { var_type: Type, name: String, value: Expression },
    /// `name slay value ;`
    Assignment { name: String, value: Expression },
    /// `flex value ;`
    Print { expr: Expression },
    /// `yeet [value] ;`
    Return { expr: Option<Expression> },
    /// `ohio ;` — leaves the innermost loop
    Break,
    /// `ong cond { then } [nah { else }]`
    If { condition: Expression, then_body: Vec<Statement>, else_body: Option<Vec<Statement>> },
    /// `mewing cond { body }`
    While { condition: Expression, body: Vec<Statement> },
    /// `sixSeven init cond ; incr { body }`
    For { init: Box<Statement>, condition: Expression, increment: Box<Statement>, body: Vec<Statement> },
}

/// A function parameter: name and declared type.
#[derive(Clone, Debug, PartialEq)]
pub struct Parameter {
    pub name: String,
    pub parameter_type: Type,
}

/// A function: name, declared return type, parameters and body.
#[derive(Debug, PartialEq)]
pub struct Function {
    pub name: String,
    pub return_type: Type,
    pub parameters: Vec<Parameter>,
    pub body: Vec<Statement>,
}

/// A whole program: an ordered sequence of functions.
#[derive(Debug, PartialEq)]
pub struct Program {
    pub functions: Vec<Function>,
}

/// Mathematical view of [`Expression`].
pub enum SpecExpr {
    Integer(i32),
    Long(i64),
    Float(Seq<char>),
    StringLit(Seq<char>),
    CharLit(char),
    Variable(Seq<char>),
    BinOp { left: Box<SpecExpr>, op: BinOp, right: Box<SpecExpr> },
}

/// Mathematical view of [`Statement`].
pub enum SpecStmt {
    VarDecl { var_type: Type, name: Seq<char>, value: SpecExpr },
    Assignment { name: Seq<char>, value: SpecExpr },
    Print { expr: SpecExpr },
    Return { expr: Option<SpecExpr> },
    Break,
    If { condition: SpecExpr, then_body: Seq<SpecStmt>, else_body: Option<Seq<SpecStmt>> },
    While { condition: SpecExpr, body: Seq<SpecStmt> },
    For { init: Box<SpecStmt>, condition: SpecExpr, increment: Box<SpecStmt>, body: Seq<SpecStmt> },
}

/// Mathematical view of [`Parameter`].
pub struct SpecParameter {
    pub name: Seq<char>,
    pub parameter_type: Type,
}

/// Mathematical view of [`Function`].
pub struct SpecFunction {
    pub name: Seq<char>,
    pub return_type: Type,
    pub parameters: Seq<SpecParameter>,
    pub body: Seq<SpecStmt>,
}

/// Mathematical view of [`Program`].
pub struct SpecProgram {
    pub functions: Seq<SpecFunction>,
}

/// The view of an expression node.
pub open spec fn view_expr(e: Expression) -> SpecExpr
    decreases e,
{
    match e {
        Expression::Integer(n) => SpecExpr::Integer(n),
        Expression::Long(n) => SpecExpr::Long(n),
        Expression::Float(t) => SpecExpr::Float(t@),
        Expression::StringLit(s) => SpecExpr::StringLit(s@),
        Expression::CharLit(c) => SpecExpr::CharLit(c),
        Expression::Variable(n) => SpecExpr::Variable(n@),
        Expression::BinOp { left, op, right } => SpecExpr::BinOp {
            left: Box::new(view_expr(*left)),
            op: op,
            right: Box::new(view_expr(*right)),
        },
    }
}

/// The view of a statement node.
pub open spec fn view_stmt(s: Statement) -> SpecStmt
    decreases s,
{
    match s {
        Statement::VarDecl { var_type, name, value } => SpecStmt::VarDecl {
            var_type: var_type,
            name: name@,
            value: view_expr(value),
        },
        Statement::Assignment { name, value } => SpecStmt::Assignment {
            name: name@,
            value: view_expr(value),
        },
        Statement::Print { expr } => SpecStmt::Print { expr: view_expr(expr) },
        Statement::Return { expr } => SpecStmt::Return {
            expr: match expr {
                Some(e) => Some(view_expr(e)),
                None => None,
            },
        },
        Statement::Break => SpecStmt::Break,
        Statement::If { condition, then_body, else_body } => SpecStmt::If {
            condition: view_expr(condition),
            then_body: view_block(then_body@),
            else_body: match else_body {
                Some(b) => Some(view_block(b@)),
                None => None,
            },
        },
        Statement::While { condition, body } => SpecStmt::While {
            condition: view_expr(condition),
            body: view_block(body@),
        },
        Statement::For { init, condition, increment, body } => SpecStmt::For {
            init: Box::new(view_stmt(*init)),
            condition: view_expr(condition),
            increment: Box::new(view_stmt(*increment)),
            body: view_block(body@),
        },
    }
}

/// The view of a statement sequence.
pub open spec fn view_block(ss: Seq<Statement>) -> Seq<SpecStmt>
    decreases ss,
{
    if ss.len() == 0 {
        Seq::empty()
    } else {
        view_block(ss.drop_last()).push(view_stmt(ss.last()))
    }
}

/// A block's view has one element per statement, in order.
pub proof fn lemma_view_block_len(ss: Seq<Statement>)
    ensures
        view_block(ss).len() == ss.len(),
        forall|i: int| 0 <= i < ss.len() ==> view_block(ss)[i] == view_stmt(#[trigger] ss[i]),
    decreases ss,
{
    if ss.len() > 0 {
        lemma_view_block_len(ss.drop_last());
        assert forall|i: int| 0 <= i < ss.len() implies view_block(ss)[i] == view_stmt(
            #[trigger] ss[i],
        ) by {
            if i < ss.len() - 1 {
                assert(ss.drop_last()[i] == ss[i]);
                assert(view_block(ss)[i] == view_block(ss.drop_last())[i]);
            } else {
                assert(ss[i] == ss.last());
            }
        }
    }
}

/// The views of a parameter list.
pub open spec fn view_params(ps: Seq<Parameter>) -> Seq<SpecParameter> {
    ps.map_values(|p: Parameter| p@)
}

/// The views of a function list.
pub open spec fn view_functions(fs: Seq<Function>) -> Seq<SpecFunction> {
    fs.map_values(|f: Function| f@)
}

impl View for Expression {
    type V = SpecExpr;

    open spec fn view(&self) -> SpecExpr {
        view_expr(*self)
    }
}

impl View for Statement {
    type V = SpecStmt;

    open spec fn view(&self) -> SpecStmt {
        view_stmt(*self)
    }
}

impl View for Parameter {
    type V = SpecParameter;

    open spec fn view(&self) -> SpecParameter {
        SpecParameter { name: self.name@, parameter_type: self.parameter_type }
    }
}

impl View for Function {
    type V = SpecFunction;

    open spec fn view(&self) -> SpecFunction {
        SpecFunction {
            name: self.name@,
            return_type: self.return_type,
            parameters: view_params(self.parameters@),
            body: view_block(self.body@),
        }
    }
}

impl View for Program {
    type V = SpecProgram;

    open spec fn view(&self) -> SpecProgram {
        SpecProgram { functions: view_functions(self.functions@) }
    }
}

} // verus!
