//! Scope-aware semantic analysis: validates declarations, assignments,
//! return types and operator typing against a stack of scopes, innermost
//! first.  Pure validation — the tree is never rewritten.
use vstd::prelude::*;

use crate::ast::BinOp;
use crate::ast::Expression;
use crate::ast::Function;
use crate::ast::Program;
use crate::ast::SpecExpr;
use crate::ast::SpecFunction;
use crate::ast::SpecParameter;
use crate::ast::SpecStmt;
use crate::ast::Statement;
use crate::ast::Type;
use crate::ast::view_block;
use crate::ast::view_functions;
use crate::ast::view_params;
use crate::ast::lemma_view_block_len;
use crate::chars::str_eq;

verus! {

/// The model of one scope: names and their declared types, in declaration
/// order.
pub type SpecScope = Seq<(Seq<char>, Type)>;

/// The model of the whole symbol table: a stack of scopes, outermost first.
pub type SpecTable = Seq<SpecScope>;

/// The keyword naming a source type, used in messages.
pub open spec fn spec_type_name(t: Type) -> Seq<char> {
    match t {
        Type::Based => "based"@,
        Type::SuperBased => "superBased"@,
        Type::Chill => "chill"@,
        Type::Vibes => "vibes"@,
        Type::Chad => "chad"@,
        Type::Void => "ghost"@,
    }
}

/// The name of a binary operator, used in messages.
pub open spec fn spec_op_name(op: BinOp) -> Seq<char> {
    match op {
        BinOp::Add => "Add"@,
        BinOp::Sub => "Sub"@,
        BinOp::Mul => "Mul"@,
        BinOp::Div => "Div"@,
        BinOp::Equal => "Equal"@,
        BinOp::NotEqual => "NotEqual"@,
        BinOp::Less => "Less"@,
        BinOp::Greater => "Greater"@,
        BinOp::LessEq => "LessEq"@,
        BinOp::GreaterEq => "GreaterEq"@,
    }
}

/// The type bound to a name in one scope, scanning in declaration order.
pub open spec fn scope_lookup(sc: SpecScope, name: Seq<char>) -> Option<Type>
    decreases sc.len(),
{
    if sc.len() == 0 {
        None
    } else if sc.first().0 == name {
        Some(sc.first().1)
    } else {
        scope_lookup(sc.drop_first(), name)
    }
}

/// The type bound to a name, scanning scopes innermost first.
pub open spec fn table_lookup(tv: SpecTable, name: Seq<char>) -> Option<Type>
    decreases tv.len(),
{
    if tv.len() == 0 {
        None
    } else {
        match scope_lookup(tv.last(), name) {
            Some(t) => Some(t),
            None => table_lookup(tv.drop_last(), name),
        }
    }
}

/// Declares a name in the innermost scope; redeclaration in the same scope
/// is an error, shadowing an outer scope is permitted.
pub open spec fn spec_declare(tv: SpecTable, name: Seq<char>, t: Type) -> Result<
    SpecTable,
    Seq<char>,
> {
    if scope_lookup(tv.last(), name) is Some {
        Err("Variable '"@ + name + "' already declared in this scope"@)
    } else {
        Ok(tv.drop_last().push(tv.last().push((name, t))))
    }
}

/// Whether a type may be an arithmetic or relational operand.
pub open spec fn is_numeric(t: Type) -> bool {
    t == Type::Based || t == Type::SuperBased || t == Type::Chill
}

/// The numeric promotion rank: floating over wide integer over narrow.
pub open spec fn rank(t: Type) -> int {
    match t {
        Type::Chill => 2,
        Type::SuperBased => 1,
        _ => 0,
    }
}

/// The result type of a binary operation, or a descriptive error.
/// Arithmetic promotes along Chill > SuperBased > Based; equality demands
/// exactly matching operand types; relational comparisons demand numeric
/// operands; equality and relational results use the narrow integer as a
/// boolean surrogate.
pub open spec fn spec_check_binary_op(l: Type, op: BinOp, r: Type) -> Result<Type, Seq<char>> {
    match op {
        BinOp::Add | BinOp::Sub | BinOp::Mul | BinOp::Div => {
            if !is_numeric(l) || !is_numeric(r) {
                Err(
                    "Invalid operation "@ + spec_op_name(op) + " between '"@ + spec_type_name(l)
                        + "' and '"@ + spec_type_name(r) + "': both must be numeric types!"@,
                )
            } else if l == Type::Chill || r == Type::Chill {
                Ok(Type::Chill)
            } else if l == Type::SuperBased || r == Type::SuperBased {
                Ok(Type::SuperBased)
            } else {
                Ok(Type::Based)
            }
        },
        BinOp::Equal | BinOp::NotEqual => {
            if l != r {
                Err(
                    "Cannot compare '"@ + spec_type_name(l) + "' and '"@ + spec_type_name(r)
                        + "': types must match"@,
                )
            } else {
                Ok(Type::Based)
            }
        },
        BinOp::Less | BinOp::Greater | BinOp::LessEq | BinOp::GreaterEq => {
            if !is_numeric(l) || !is_numeric(r) {
                Err(
                    "Invalid comparison "@ + spec_op_name(op) + " between '"@ + spec_type_name(l)
                        + "' and '"@ + spec_type_name(r) + "': both must be numeric types!"@,
                )
            } else {
                Ok(Type::Based)
            }
        },
    }
}

/// The inferred type of an expression under a table, or the first error.
pub open spec fn spec_infer_expr(tv: SpecTable, e: SpecExpr) -> Result<Type, Seq<char>>
    decreases e,
{
    match e {
        SpecExpr::Integer(_) => Ok(Type::Based),
        SpecExpr::Long(_) => Ok(Type::SuperBased),
        SpecExpr::Float(_) => Ok(Type::Chill),
        SpecExpr::StringLit(_) => Ok(Type::Vibes),
        SpecExpr::CharLit(_) => Ok(Type::Chad),
        SpecExpr::Variable(n) => match table_lookup(tv, n) {
            Some(t) => Ok(t),
            None => Err("Variable '"@ + n + "' not declared"@),
        },
        SpecExpr::BinOp { left, op, right } => match spec_infer_expr(tv, *left) {
            Ok(lt) => match spec_infer_expr(tv, *right) {
                Ok(rt) => spec_check_binary_op(lt, op, rt),
                Err(m) => Err(m),
            },
            Err(m) => Err(m),
        },
    }
}

/// Checks one statement; declarations extend the innermost scope, so the
/// table after the statement is part of the result.
pub open spec fn spec_analyze_stmt(tv: SpecTable, s: SpecStmt, ret: Type) -> Result<
    SpecTable,
    Seq<char>,
>
    decreases s, 0int,
{
    match s {
        SpecStmt::VarDecl { var_type, name, value } => match spec_infer_expr(tv, value) {
            Ok(et) => if et != var_type {
                Err(
                    "Type mismatch in variable declaration '"@ + name + "': expected "@
                        + spec_type_name(var_type) + ", got "@ + spec_type_name(et),
                )
            } else {
                spec_declare(tv, name, var_type)
            },
            Err(m) => Err(m),
        },
        SpecStmt::Assignment { name, value } => match table_lookup(tv, name) {
            Some(t) => match spec_infer_expr(tv, value) {
                Ok(et) => if et != t {
                    Err(
                        "Type mismatch in assignment to '"@ + name + "': expected "@
                            + spec_type_name(t) + ", got "@ + spec_type_name(et),
                    )
                } else {
                    Ok(tv)
                },
                Err(m) => Err(m),
            },
            None => Err("Variable '"@ + name + "' not declared"@),
        },
        SpecStmt::Print { expr } => match spec_infer_expr(tv, expr) {
            Ok(_) => Ok(tv),
            Err(m) => Err(m),
        },
        SpecStmt::Return { expr } => match expr {
            Some(e) => match spec_infer_expr(tv, e) {
                Ok(et) => if et != ret {
                    Err(
                        "Return mismatch: expected '"@ + spec_type_name(ret) + "', got "@
                            + spec_type_name(et),
                    )
                } else {
                    Ok(tv)
                },
                Err(m) => Err(m),
            },
            None => if ret != Type::Void {
                Err(
                    "Function must return "@ + spec_type_name(ret)
                        + ", but return statement has no return value"@,
                )
            } else {
                Ok(tv)
            },
        },
        SpecStmt::Break => Ok(tv),
        SpecStmt::If { condition, then_body, else_body } => match spec_infer_expr(tv, condition) {
            Ok(_) => match spec_analyze_block(tv.push(Seq::empty()), then_body, ret) {
                Ok(tv1) => {
                    let tv2 = tv1.drop_last();
                    match else_body {
                        Some(eb) => match spec_analyze_block(tv2.push(Seq::empty()), eb, ret) {
                            Ok(tv3) => Ok(tv3.drop_last()),
                            Err(m) => Err(m),
                        },
                        None => Ok(tv2),
                    }
                },
                Err(m) => Err(m),
            },
            Err(m) => Err(m),
        },
        SpecStmt::While { condition, body } => match spec_infer_expr(tv, condition) {
            Ok(_) => match spec_analyze_block(tv.push(Seq::empty()), body, ret) {
                Ok(tv1) => Ok(tv1.drop_last()),
                Err(m) => Err(m),
            },
            Err(m) => Err(m),
        },
        SpecStmt::For { init, condition, increment, body } => match spec_analyze_stmt(
            tv.push(Seq::empty()),
            *init,
            ret,
        ) {
            Ok(tv1) => match spec_infer_expr(tv1, condition) {
                Ok(_) => match spec_analyze_stmt(tv1, *increment, ret) {
                    Ok(tv2) => match spec_analyze_block(tv2, body, ret) {
                        Ok(tv3) => Ok(tv3.drop_last()),
                        Err(m) => Err(m),
                    },
                    Err(m) => Err(m),
                },
                Err(m) => Err(m),
            },
            Err(m) => Err(m),
        },
    }
}

/// Checks a statement sequence in order, threading the table through.
pub open spec fn spec_analyze_block(tv: SpecTable, ss: Seq<SpecStmt>, ret: Type) -> Result<
    SpecTable,
    Seq<char>,
>
    decreases ss, 1int,
{
    if ss.len() == 0 {
        Ok(tv)
    } else {
        match spec_analyze_stmt(tv, ss.first(), ret) {
            Ok(tv1) => spec_analyze_block(tv1, ss.drop_first(), ret),
            Err(m) => Err(m),
        }
    }
}

/// Declares the parameters of a function in order.
pub open spec fn spec_declare_params(tv: SpecTable, ps: Seq<SpecParameter>) -> Result<
    SpecTable,
    Seq<char>,
>
    decreases ps.len(),
{
    if ps.len() == 0 {
        Ok(tv)
    } else {
        match spec_declare(tv, ps.first().name, ps.first().parameter_type) {
            Ok(tv1) => spec_declare_params(tv1, ps.drop_first()),
            Err(m) => Err(m),
        }
    }
}

/// Checks one function: one fresh scope holding the parameters, then the
/// body, then the scope is left.
pub open spec fn spec_analyze_function(tv: SpecTable, f: SpecFunction) -> Result<
    SpecTable,
    Seq<char>,
> {
    match spec_declare_params(tv.push(Seq::empty()), f.parameters) {
        Ok(tv1) => match spec_analyze_block(tv1, f.body, f.return_type) {
            Ok(tv2) => Ok(tv2.drop_last()),
            Err(m) => Err(m),
        },
        Err(m) => Err(m),
    }
}

/// Checks the functions of a program in order.
pub open spec fn spec_analyze_funcs(tv: SpecTable, fs: Seq<SpecFunction>) -> Result<
    SpecTable,
    Seq<char>,
>
    decreases fs.len(),
{
    if fs.len() == 0 {
        Ok(tv)
    } else {
        match spec_analyze_function(tv, fs.first()) {
            Ok(tv1) => spec_analyze_funcs(tv1, fs.drop_first()),
            Err(m) => Err(m),
        }
    }
}

/// Whether a whole program passes semantic analysis, and with which error
/// it fails otherwise.  Analysis starts from one empty global scope.
pub open spec fn spec_analyze_program(p: crate::ast::SpecProgram) -> Result<(), Seq<char>> {
    match spec_analyze_funcs(seq![Seq::empty()], p.functions) {
        Ok(_) => Ok(()),
        Err(m) => Err(m),
    }
}

/// One declared name: its text, type, and a location tag.
pub struct SymbolInfo {
    pub name: String,
    pub tipo: Type,
    pub location: usize,
}

impl SymbolInfo {
    /// Builds a symbol record.
    pub fn new(name: String, tipo: Type, location: usize) -> (r: SymbolInfo)
        ensures
            r.name == name,
            r.tipo == tipo,
            r.location == location,
    {
        SymbolInfo { name, tipo, location }
    }
}

/// The view of one scope.
pub open spec fn scope_view(sc: Seq<SymbolInfo>) -> SpecScope {
    sc.map_values(|si: SymbolInfo| (si.name@, si.tipo))
}

/// An ordered stack of scopes, each a name-to-type mapping.
pub struct SymbolTable {
    pub scopes: Vec<Vec<SymbolInfo>>,
}

impl View for SymbolTable {
    type V = SpecTable;

    open spec fn view(&self) -> SpecTable {
        self.scopes@.map_values(|sc: Vec<SymbolInfo>| scope_view(sc@))
    }
}

impl SymbolTable {
    /// A table holding one empty global scope.
    pub fn new() -> (r: SymbolTable)
        ensures
            r@ =~= seq![Seq::<(Seq<char>, Type)>::empty()],
    {
        let mut scopes: Vec<Vec<SymbolInfo>> = Vec::new();
        scopes.push(Vec::new());
        let r = SymbolTable { scopes };
        proof {
            assert(scope_view(Seq::<SymbolInfo>::empty()) =~= Seq::<(Seq<char>, Type)>::empty());
            assert(r@ =~= seq![Seq::<(Seq<char>, Type)>::empty()]);
        }
        r
    }

    /// Pushes a fresh innermost scope.
    pub fn enter_scope(&mut self)
        ensures
            final(self)@ == old(self)@.push(Seq::empty()),
    {
        self.scopes.push(Vec::new());
        proof {
            assert(scope_view(Seq::<SymbolInfo>::empty()) =~= Seq::<(Seq<char>, Type)>::empty());
            assert(final(self)@ =~= old(self)@.push(Seq::empty()));
        }
    }

    /// Pops the innermost scope; on an empty stack nothing changes.
    pub fn exit_scope(&mut self)
        ensures
            old(self)@.len() > 0 ==> final(self)@ == old(self)@.drop_last(),
            old(self)@.len() == 0 ==> final(self)@ == old(self)@,
    {
        let _ = self.scopes.pop();
        proof {
            if old(self)@.len() > 0 {
                assert(final(self)@ =~= old(self)@.drop_last());
            } else {
                assert(final(self)@ =~= old(self)@);
            }
        }
    }

    /// Declares a name in the innermost scope; redeclaring a name already
    /// in that scope is an error, shadowing an outer one is permitted.
    pub fn declare(&mut self, name: String, tipo: Type, location: usize) -> (r: Result<(), String>)
        requires
            old(self)@.len() > 0,
        ensures
            ({
                let sp = spec_declare(old(self)@, name@, tipo);
                &&& (r is Ok ==> sp is Ok && final(self)@ == sp->Ok_0)
                &&& (r is Err ==> sp is Err && r->Err_0@ == sp->Err_0 && final(self)@ == old(
                    self,
                )@)
            }),
    {
        let n = self.scopes.len();
        let current = &self.scopes[n - 1];
        let ghost cur = scope_view(current@);
        proof {
            assert(old(self)@[n - 1] == scope_view(old(self).scopes@[n - 1]@));
            assert(cur == old(self)@.last());
        }
        let mut found = false;
        let m = current.len();
        let mut i: usize = 0;
        proof {
            assert(cur.skip(0) =~= cur);
        }
        while i < m
            invariant
                i <= m,
                m == current@.len(),
                cur == scope_view(current@),
                self == old(self),
                n == self.scopes@.len(),
                found == (scope_lookup(cur, name@) is Some && exists|j: int|
                    0 <= j < i && cur[j].0 == name@),
                !found ==> scope_lookup(cur.skip(i as int), name@) == scope_lookup(cur, name@),
                !found ==> forall|j: int| 0 <= j < i ==> (#[trigger] cur[j]).0 != name@,
            decreases m - i,
        {
            proof {
                assert(cur[i as int] == (current@[i as int].name@, current@[i as int].tipo));
                assert(cur.skip(i as int).first() == cur[i as int]);
                assert(cur.skip(i as int).drop_first() =~= cur.skip(i as int + 1));
            }
            if str_eq(current[i].name.as_str(), name.as_str()) {
                found = true;
                proof {
                    assert(scope_lookup(cur.skip(i as int), name@) is Some);
                }
                break;
            }
            i = i + 1;
        }
        proof {
            if !found {
                assert(cur.skip(m as int) =~= Seq::<(Seq<char>, Type)>::empty());
            }
        }
        if found {
            let mut msg = String::from_str("Variable '");
            msg.append(name.as_str());
            msg.append("' already declared in this scope");
            return Err(msg);
        }
        let mut last = self.scopes.pop().unwrap();
        let ghost last0 = last@;
        last.push(SymbolInfo { name, tipo, location });
        self.scopes.push(last);
        proof {
            assert(scope_view(last0.push(SymbolInfo { name, tipo, location })) =~= scope_view(
                last0,
            ).push((name@, tipo)));
            assert(final(self)@ =~= old(self)@.drop_last().push(
                old(self)@.last().push((name@, tipo)),
            ));
        }
        Ok(())
    }

    /// Looks a name up across the scope stack, innermost first.
    pub fn lookup(&self, name: &str) -> (r: Option<&SymbolInfo>)
        ensures
            ({
                let sp = table_lookup(self@, name@);
                &&& (r is Some ==> sp is Some && r->0.tipo == sp->0 && r->0.name@ == name@)
                &&& (r is None ==> sp is None)
            }),
    {
        let depth = self.scopes.len();
        let mut level: usize = depth;
        proof {
            assert(self@.take(depth as int) =~= self@);
        }
        while level > 0
            invariant
                level <= depth,
                depth == self.scopes@.len(),
                table_lookup(self@.take(level as int), name@) == table_lookup(self@, name@),
            decreases level,
        {
            level = level - 1;
            let scope = &self.scopes[level];
            let ghost sv = scope_view(scope@);
            proof {
                assert(self@[level as int] == scope_view(self.scopes@[level as int]@));
                assert(self@.take(level as int + 1).last() == sv);
                assert(self@.take(level as int + 1).drop_last() =~= self@.take(level as int));
            }
            let m = scope.len();
            let mut i: usize = 0;
            proof {
                assert(sv.skip(0) =~= sv);
            }
            while i < m
                invariant
                    i <= m,
                    m == scope@.len(),
                    sv == scope_view(scope@),
                    scope_lookup(sv.skip(i as int), name@) == scope_lookup(sv, name@),
                    forall|j: int| 0 <= j < i ==> (#[trigger] sv[j]).0 != name@,
                decreases m - i,
            {
                proof {
                    assert(sv[i as int] == (scope@[i as int].name@, scope@[i as int].tipo));
                    assert(sv.skip(i as int).first() == sv[i as int]);
                    assert(sv.skip(i as int).drop_first() =~= sv.skip(i as int + 1));
                }
                if str_eq(scope[i].name.as_str(), name) {
                    proof {
                        assert(scope_lookup(sv.skip(i as int), name@) is Some);
                    }
                    return Some(&scope[i]);
                }
                i = i + 1;
            }
            proof {
                assert(sv.skip(m as int) =~= Seq::<(Seq<char>, Type)>::empty());
                assert(scope_lookup(sv, name@) is None);
            }
        }
        proof {
            assert(self@.take(0) =~= Seq::<SpecScope>::empty());
        }
        None
    }
}

/// What a binary-operator application types to: arithmetic promotes to the
/// highest-ranked operand type under Chill > SuperBased > Based; equality
/// between two different types is always an error; relational comparisons
/// reject any non-numeric operand; comparison results are the narrow
/// integer used as a boolean surrogate.
pub proof fn lemma_binary_op_typing(l: Type, op: BinOp, r: Type)
    ensures
        (op == BinOp::Add || op == BinOp::Sub || op == BinOp::Mul || op == BinOp::Div)
            && is_numeric(l) && is_numeric(r) ==> spec_check_binary_op(l, op, r) == Ok::<
            Type,
            Seq<char>,
        >(
            if rank(l) >= rank(r) {
                l
            } else {
                r
            },
        ),
        (op == BinOp::Add || op == BinOp::Sub || op == BinOp::Mul || op == BinOp::Div) && !(
        is_numeric(l) && is_numeric(r)) ==> spec_check_binary_op(l, op, r) is Err,
        (op == BinOp::Equal || op == BinOp::NotEqual) && l != r ==> spec_check_binary_op(
            l,
            op,
            r,
        ) is Err,
        (op == BinOp::Equal || op == BinOp::NotEqual) && l == r ==> spec_check_binary_op(l, op, r)
            == Ok::<Type, Seq<char>>(Type::Based),
        (op == BinOp::Less || op == BinOp::Greater || op == BinOp::LessEq || op
            == BinOp::GreaterEq) && is_numeric(l) && is_numeric(r) ==> spec_check_binary_op(
            l,
            op,
            r,
        ) == Ok::<Type, Seq<char>>(Type::Based),
        (op == BinOp::Less || op == BinOp::Greater || op == BinOp::LessEq || op
            == BinOp::GreaterEq) && !(is_numeric(l) && is_numeric(r)) ==> spec_check_binary_op(
            l,
            op,
            r,
        ) is Err,
{
}

/// Checks the operand types of one binary operator and returns the result
/// type, or a descriptive error.
pub fn check_binary_op(left_type: &Type, op: &BinOp, right_type: &Type) -> (r: Result<Type, String>)
    ensures
        ({
            let sp = spec_check_binary_op(*left_type, *op, *right_type);
            &&& (r is Ok ==> sp is Ok && r->Ok_0 == sp->Ok_0)
            &&& (r is Err ==> sp is Err && r->Err_0@ == sp->Err_0)
        }),
{
    let l = *left_type;
    let rt = *right_type;
    match op {
        BinOp::Add | BinOp::Sub | BinOp::Mul | BinOp::Div => {
            let left_numeric = matches!(l, Type::Based | Type::SuperBased | Type::Chill);
            let right_numeric = matches!(rt, Type::Based | Type::SuperBased | Type::Chill);
            if !left_numeric || !right_numeric {
                let mut m = String::from_str("Invalid operation ");
                m.append(op_name(op));
                m.append(" between '");
                m.append(crate::riscv::type_to_string(left_type));
                m.append("' and '");
                m.append(crate::riscv::type_to_string(right_type));
                m.append("': both must be numeric types!");
                Err(m)
            } else if matches!(l, Type::Chill) || matches!(rt, Type::Chill) {
                Ok(Type::Chill)
            } else if matches!(l, Type::SuperBased) || matches!(rt, Type::SuperBased) {
                Ok(Type::SuperBased)
            } else {
                Ok(Type::Based)
            }
        },
        BinOp::Equal | BinOp::NotEqual => {
            if l != rt {
                let mut m = String::from_str("Cannot compare '");
                m.append(crate::riscv::type_to_string(left_type));
                m.append("' and '");
                m.append(crate::riscv::type_to_string(right_type));
                m.append("': types must match");
                Err(m)
            } else {
                Ok(Type::Based)
            }
        },
        BinOp::Less | BinOp::Greater | BinOp::LessEq | BinOp::GreaterEq => {
            let left_numeric = matches!(l, Type::Based | Type::SuperBased | Type::Chill);
            let right_numeric = matches!(rt, Type::Based | Type::SuperBased | Type::Chill);
            if !left_numeric || !right_numeric {
                let mut m = String::from_str("Invalid comparison ");
                m.append(op_name(op));
                m.append(" between '");
                m.append(crate::riscv::type_to_string(left_type));
                m.append("' and '");
                m.append(crate::riscv::type_to_string(right_type));
                m.append("': both must be numeric types!");
                Err(m)
            } else {
                Ok(Type::Based)
            }
        },
    }
}

/// The name of a binary operator, for messages.
fn op_name(op: &BinOp) -> (r: &'static str)
    ensures
        r@ == spec_op_name(*op),
{
    match op {
        BinOp::Add => "Add",
        BinOp::Sub => "Sub",
        BinOp::Mul => "Mul",
        BinOp::Div => "Div",
        BinOp::Equal => "Equal",
        BinOp::NotEqual => "NotEqual",
        BinOp::Less => "Less",
        BinOp::Greater => "Greater",
        BinOp::LessEq => "LessEq",
        BinOp::GreaterEq => "GreaterEq",
    }
}

/// Infers the type of an expression under the current scopes.
fn analyze_expression(stm_tab: &SymbolTable, expr: &Expression) -> (r: Result<Type, String>)
    ensures
        ({
            let sp = spec_infer_expr(stm_tab@, expr@);
            &&& (r is Ok ==> sp is Ok && r->Ok_0 == sp->Ok_0)
            &&& (r is Err ==> sp is Err && r->Err_0@ == sp->Err_0)
        }),
    decreases expr,
{
    match expr {
        Expression::Integer(_) => Ok(Type::Based),
        Expression::Long(_) => Ok(Type::SuperBased),
        Expression::Float(_) => Ok(Type::Chill),
        Expression::StringLit(_) => Ok(Type::Vibes),
        Expression::CharLit(_) => Ok(Type::Chad),
        Expression::Variable(name) => match stm_tab.lookup(name.as_str()) {
            Some(info) => Ok(info.tipo),
            None => {
                let mut m = String::from_str("Variable '");
                m.append(name.as_str());
                m.append("' not declared");
                Err(m)
            },
        },
        Expression::BinOp { left, op, right } => {
            let lt = match analyze_expression(stm_tab, left) {
                Ok(t) => t,
                Err(m) => {
                    return Err(m);
                },
            };
            let rt = match analyze_expression(stm_tab, right) {
                Ok(t) => t,
                Err(m) => {
                    return Err(m);
                },
            };
            check_binary_op(&lt, op, &rt)
        },
    }
}

/// Checks one statement, extending the innermost scope on a declaration.
fn analyze_statement(stm_tab: &mut SymbolTable, stmt: &Statement, expected_return: &Type) -> (r:
    Result<(), String>)
    requires
        old(stm_tab)@.len() > 0,
    ensures
        ({
            let sp = spec_analyze_stmt(old(stm_tab)@, stmt@, *expected_return);
            &&& (r is Ok ==> sp is Ok && final(stm_tab)@ == sp->Ok_0 && final(stm_tab)@.len()
                == old(stm_tab)@.len())
            &&& (r is Err ==> sp is Err && r->Err_0@ == sp->Err_0)
        }),
    decreases stmt, 0int, 0int,
{
    match stmt {
        Statement::VarDecl { var_type, name, value } => {
            let et = match analyze_expression(stm_tab, value) {
                Ok(t) => t,
                Err(m) => {
                    return Err(m);
                },
            };
            if et != *var_type {
                let mut m = String::from_str("Type mismatch in variable declaration '");
                m.append(name.as_str());
                m.append("': expected ");
                m.append(crate::riscv::type_to_string(var_type));
                m.append(", got ");
                m.append(crate::riscv::type_to_string(&et));
                return Err(m);
            }
            stm_tab.declare(name.clone(), *var_type, 0)
        },
        Statement::Assignment { name, value } => {
            let target = match stm_tab.lookup(name.as_str()) {
                Some(info) => info.tipo,
                None => {
                    let mut m = String::from_str("Variable '");
                    m.append(name.as_str());
                    m.append("' not declared");
                    return Err(m);
                },
            };
            let et = match analyze_expression(stm_tab, value) {
                Ok(t) => t,
                Err(m) => {
                    return Err(m);
                },
            };
            if et != target {
                let mut m = String::from_str("Type mismatch in assignment to '");
                m.append(name.as_str());
                m.append("': expected ");
                m.append(crate::riscv::type_to_string(&target));
                m.append(", got ");
                m.append(crate::riscv::type_to_string(&et));
                return Err(m);
            }
            Ok(())
        },
        Statement::Print { expr } => match analyze_expression(stm_tab, expr) {
            Ok(_) => Ok(()),
            Err(m) => Err(m),
        },
        Statement::Return { expr } => match expr {
            Some(e) => {
                let et = match analyze_expression(stm_tab, e) {
                    Ok(t) => t,
                    Err(m) => {
                        return Err(m);
                    },
                };
                if et != *expected_return {
                    let mut m = String::from_str("Return mismatch: expected '");
                    m.append(crate::riscv::type_to_string(expected_return));
                    m.append("', got ");
                    m.append(crate::riscv::type_to_string(&et));
                    return Err(m);
                }
                Ok(())
            },
            None => {
                if !matches!(expected_return, Type::Void) {
                    let mut m = String::from_str("Function must return ");
                    m.append(crate::riscv::type_to_string(expected_return));
                    m.append(", but return statement has no return value");
                    return Err(m);
                }
                Ok(())
            },
        },
        Statement::Break => Ok(()),
        Statement::If { condition, then_body, else_body } => {
            match analyze_expression(stm_tab, condition) {
                Ok(_) => {},
                Err(m) => {
                    return Err(m);
                },
            }
            stm_tab.enter_scope();
            proof {
                assert(view_block(then_body@).skip(0) =~= view_block(then_body@));
            }
            match analyze_block_from(stm_tab, then_body, 0, expected_return) {
                Ok(_) => {},
                Err(m) => {
                    return Err(m);
                },
            }
            stm_tab.exit_scope();
            match else_body {
                Some(eb) => {
                    stm_tab.enter_scope();
                    proof {
                        assert(view_block(eb@).skip(0) =~= view_block(eb@));
                    }
                    match analyze_block_from(stm_tab, eb, 0, expected_return) {
                        Ok(_) => {},
                        Err(m) => {
                            return Err(m);
                        },
                    }
                    stm_tab.exit_scope();
                    Ok(())
                },
                None => Ok(()),
            }
        },
        Statement::While { condition, body } => {
            match analyze_expression(stm_tab, condition) {
                Ok(_) => {},
                Err(m) => {
                    return Err(m);
                },
            }
            stm_tab.enter_scope();
            proof {
                assert(view_block(body@).skip(0) =~= view_block(body@));
            }
            match analyze_block_from(stm_tab, body, 0, expected_return) {
                Ok(_) => {},
                Err(m) => {
                    return Err(m);
                },
            }
            stm_tab.exit_scope();
            Ok(())
        },
        Statement::For { init, condition, increment, body } => {
            stm_tab.enter_scope();
            match analyze_statement(stm_tab, init, expected_return) {
                Ok(_) => {},
                Err(m) => {
                    return Err(m);
                },
            }
            match analyze_expression(stm_tab, condition) {
                Ok(_) => {},
                Err(m) => {
                    return Err(m);
                },
            }
            match analyze_statement(stm_tab, increment, expected_return) {
                Ok(_) => {},
                Err(m) => {
                    return Err(m);
                },
            }
            proof {
                assert(view_block(body@).skip(0) =~= view_block(body@));
            }
            match analyze_block_from(stm_tab, body, 0, expected_return) {
                Ok(_) => {},
                Err(m) => {
                    return Err(m);
                },
            }
            stm_tab.exit_scope();
            Ok(())
        },
    }
}

/// Checks the statements of a block from position `from` on.
fn analyze_block_from(
    stm_tab: &mut SymbolTable,
    stmts: &Vec<Statement>,
    from: usize,
    expected_return: &Type,
) -> (r: Result<(), String>)
    requires
        old(stm_tab)@.len() > 0,
        from <= stmts@.len(),
    ensures
        ({
            let sp = spec_analyze_block(
                old(stm_tab)@,
                view_block(stmts@).skip(from as int),
                *expected_return,
            );
            &&& (r is Ok ==> sp is Ok && final(stm_tab)@ == sp->Ok_0 && final(stm_tab)@.len()
                == old(stm_tab)@.len())
            &&& (r is Err ==> sp is Err && r->Err_0@ == sp->Err_0)
        }),
    decreases stmts@, stmts@.len() - from, 1int,
{
    let ghost bs = view_block(stmts@);
    proof {
        lemma_view_block_len(stmts@);
    }
    if from >= stmts.len() {
        proof {
            assert(bs.skip(from as int) =~= Seq::<SpecStmt>::empty());
        }
        return Ok(());
    }
    proof {
        assert(bs.skip(from as int).first() == bs[from as int]);
        assert(bs.skip(from as int).drop_first() =~= bs.skip(from as int + 1));
        assert(decreases_to!(stmts@ => stmts@[from as int]));
    }
    match analyze_statement(stm_tab, &stmts[from], expected_return) {
        Ok(_) => {},
        Err(m) => {
            return Err(m);
        },
    }
    analyze_block_from(stm_tab, stmts, from + 1, expected_return)
}

/// Checks one function: its parameters in a fresh scope, then its body.
fn analyze_function(stm_tab: &mut SymbolTable, func: &Function) -> (r: Result<(), String>)
    ensures
        ({
            let sp = spec_analyze_function(old(stm_tab)@, func@);
            &&& (r is Ok ==> sp is Ok && final(stm_tab)@ == sp->Ok_0 && final(stm_tab)@.len()
                == old(stm_tab)@.len())
            &&& (r is Err ==> sp is Err && r->Err_0@ == sp->Err_0)
        }),
{
    stm_tab.enter_scope();
    let ghost ps = view_params(func.parameters@);
    let n = func.parameters.len();
    let mut i: usize = 0;
    proof {
        assert(ps.skip(0) =~= ps);
    }
    while i < n
        invariant
            i <= n,
            n == func.parameters@.len(),
            ps == view_params(func.parameters@),
            stm_tab@.len() > 0,
            stm_tab@.len() == old(stm_tab)@.len() + 1,
            spec_declare_params(old(stm_tab)@.push(Seq::empty()), ps) == spec_declare_params(
                stm_tab@,
                ps.skip(i as int),
            ),
        decreases n - i,
    {
        proof {
            assert(ps[i as int] == func.parameters@[i as int]@);
            assert(ps.skip(i as int).first() == ps[i as int]);
            assert(ps.skip(i as int).drop_first() =~= ps.skip(i as int + 1));
        }
        let p = &func.parameters[i];
        match stm_tab.declare(p.name.clone(), p.parameter_type, 0) {
            Ok(_) => {},
            Err(m) => {
                return Err(m);
            },
        }
        i = i + 1;
    }
    proof {
        assert(ps.skip(n as int) =~= Seq::<SpecParameter>::empty());
        assert(view_block(func.body@).skip(0) =~= view_block(func.body@));
    }
    match analyze_block_from(stm_tab, &func.body, 0, &func.return_type) {
        Ok(_) => {},
        Err(m) => {
            return Err(m);
        },
    }
    stm_tab.exit_scope();
    Ok(())
}

/// Checks the functions of a program from position `from` on.
fn analyze_funcs_from(stm_tab: &mut SymbolTable, funcs: &Vec<Function>, from: usize) -> (r: Result<
    (),
    String,
>)
    requires
        from <= funcs@.len(),
    ensures
        ({
            let sp = spec_analyze_funcs(old(stm_tab)@, view_functions(funcs@).skip(from as int));
            &&& (r is Ok ==> sp is Ok && final(stm_tab)@ == sp->Ok_0 && final(stm_tab)@.len()
                == old(stm_tab)@.len())
            &&& (r is Err ==> sp is Err && r->Err_0@ == sp->Err_0)
        }),
    decreases funcs@.len() - from,
{
    let ghost fs = view_functions(funcs@);
    if from >= funcs.len() {
        proof {
            assert(fs.skip(from as int) =~= Seq::<SpecFunction>::empty());
        }
        return Ok(());
    }
    proof {
        assert(fs[from as int] == funcs@[from as int]@);
        assert(fs.skip(from as int).first() == fs[from as int]);
        assert(fs.skip(from as int).drop_first() =~= fs.skip(from as int + 1));
    }
    match analyze_function(stm_tab, &funcs[from]) {
        Ok(_) => {},
        Err(m) => {
            return Err(m);
        },
    }
    analyze_funcs_from(stm_tab, funcs, from + 1)
}

/// Validates a whole program, or returns the first semantic error:
/// undeclared or redeclared variables, type mismatches in declarations,
/// assignments and returns, and invalid operand types.
pub fn analyze_program(ast: &Program) -> (r: Result<(), String>)
    ensures
        ({
            let sp = spec_analyze_program(ast@);
            &&& (r is Ok ==> sp is Ok)
            &&& (r is Err ==> sp is Err && r->Err_0@ == sp->Err_0)
        }),
{
    let mut stm_table = SymbolTable::new();
    proof {
        assert(view_functions(ast.functions@).skip(0) =~= view_functions(ast.functions@));
    }
    match analyze_funcs_from(&mut stm_table, &ast.functions, 0) {
        Ok(_) => Ok(()),
        Err(m) => Err(m),
    }
}

} // verus!
