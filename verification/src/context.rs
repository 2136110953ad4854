//! The per-compilation code generation context: variable-to-offset and
//! variable-to-type maps, the frame byte cursor, the string-literal pool,
//! the label counter and the loop-exit label stack.
use vstd::prelude::*;

use crate::ast::Type;
use crate::chars::str_eq;
use crate::numerals::dec_u128;
use crate::numerals::lemma_dec_u_injective;
use crate::numerals::spec_dec_u;

verus! {

/// Mathematical view of [`CodeGenContext`].
pub struct SpecCtx {
    /// variable name to frame offset, in allocation order
    pub vars: Seq<(Seq<char>, u64)>,
    /// variable name to declared type, in allocation order
    pub var_types: Seq<(Seq<char>, Type)>,
    /// next free frame offset in bytes
    pub stack_offset: u64,
    /// string literals in discovery order
    pub pool: Seq<Seq<char>>,
    /// count of control-flow labels handed out
    pub label_counter: u64,
    /// exit labels of the loops currently open, innermost last
    pub loop_stack: Seq<Seq<char>>,
}

/// The binding of a name in an allocation list, latest allocation first.
pub open spec fn assoc_lookup<T>(vs: Seq<(Seq<char>, T)>, name: Seq<char>) -> Option<T>
    decreases vs.len(),
{
    if vs.len() == 0 {
        None
    } else if vs.last().0 == name {
        Some(vs.last().1)
    } else {
        assoc_lookup(vs.drop_last(), name)
    }
}

/// The cursor after one four-byte allocation, saturating at the top.
pub open spec fn spec_bump(c: u64) -> u64 {
    if c > u64::MAX - 4 {
        u64::MAX
    } else {
        (c + 4) as u64
    }
}

/// The counter after one label allocation, saturating at the top.
pub open spec fn spec_bump_label(c: u64) -> u64 {
    if c == u64::MAX {
        u64::MAX
    } else {
        (c + 1) as u64
    }
}

/// The label of the string-literal pool entry at position `i`.
pub open spec fn spec_str_label(i: int) -> Seq<char> {
    "str_"@ + spec_dec_u(i)
}

/// The text of a fresh control-flow label made from a prefix and the
/// current counter.
pub open spec fn spec_label_text(prefix: Seq<char>, counter: u64) -> Seq<char> {
    prefix + "_"@ + spec_dec_u(counter as int)
}

/// Distinct pool positions always get distinct labels, whatever the texts
/// of the literals: the label depends on the position alone.
pub proof fn lemma_str_labels_distinct(i: int, j: int)
    requires
        0 <= i,
        0 <= j,
        i != j,
    ensures
        spec_str_label(i) != spec_str_label(j),
{
    if spec_str_label(i) == spec_str_label(j) {
        assert(spec_dec_u(i) =~= spec_dec_u(j)) by {
            let a = "str_"@;
            assert((a + spec_dec_u(i)).skip(a.len() as int) =~= spec_dec_u(i));
            assert((a + spec_dec_u(j)).skip(a.len() as int) =~= spec_dec_u(j));
        }
        lemma_dec_u_injective(i, j);
    }
}

/// Labels made from the same prefix and distinct counter values differ.
pub proof fn lemma_labels_distinct(prefix: Seq<char>, c1: u64, c2: u64)
    requires
        c1 != c2,
    ensures
        spec_label_text(prefix, c1) != spec_label_text(prefix, c2),
{
    if spec_label_text(prefix, c1) == spec_label_text(prefix, c2) {
        assert(spec_dec_u(c1 as int) =~= spec_dec_u(c2 as int)) by {
            let a = prefix + "_"@;
            assert(spec_label_text(prefix, c1) =~= a + spec_dec_u(c1 as int));
            assert(spec_label_text(prefix, c2) =~= a + spec_dec_u(c2 as int));
            assert((a + spec_dec_u(c1 as int)).skip(a.len() as int) =~= spec_dec_u(c1 as int));
            assert((a + spec_dec_u(c2 as int)).skip(a.len() as int) =~= spec_dec_u(c2 as int));
        }
        lemma_dec_u_injective(c1 as int, c2 as int);
    }
}

/// Code generation state, reset per function for variables and offsets,
/// global for the string pool and the label counter.
pub struct CodeGenContext {
    /// variable name to frame offset, in allocation order
    pub variables: Vec<(String, u64)>,
    /// variable name to declared type, in allocation order
    pub variable_types: Vec<(String, Type)>,
    /// next free frame offset in bytes
    pub stack_offset: u64,
    /// string literals in discovery order
    pub string_literals: Vec<String>,
    /// count of control-flow labels handed out
    pub label_counter: u64,
    /// exit labels of the loops currently open, innermost last
    pub loop_stack: Vec<String>,
}

/// The view of a variable-to-offset list.
pub open spec fn vars_view(vs: Seq<(String, u64)>) -> Seq<(Seq<char>, u64)> {
    vs.map_values(|p: (String, u64)| (p.0@, p.1))
}

/// The view of a variable-to-type list.
pub open spec fn types_view(vs: Seq<(String, Type)>) -> Seq<(Seq<char>, Type)> {
    vs.map_values(|p: (String, Type)| (p.0@, p.1))
}

/// The view of a string list.
pub open spec fn strings_view(vs: Seq<String>) -> Seq<Seq<char>> {
    vs.map_values(|s: String| s@)
}

impl View for CodeGenContext {
    type V = SpecCtx;

    open spec fn view(&self) -> SpecCtx {
        SpecCtx {
            vars: vars_view(self.variables@),
            var_types: types_view(self.variable_types@),
            stack_offset: self.stack_offset,
            pool: strings_view(self.string_literals@),
            label_counter: self.label_counter,
            loop_stack: strings_view(self.loop_stack@),
        }
    }
}

/// The context state after allocating one variable.
pub open spec fn spec_alloc(c: SpecCtx, name: Seq<char>, t: Type) -> (u64, SpecCtx) {
    (
        c.stack_offset,
        SpecCtx {
            vars: c.vars.push((name, c.stack_offset)),
            var_types: c.var_types.push((name, t)),
            stack_offset: spec_bump(c.stack_offset),
            ..c
        },
    )
}

/// The label handed out for a string literal, and the context after
/// interning it.
pub open spec fn spec_add_string(c: SpecCtx, s: Seq<char>) -> (Seq<char>, SpecCtx) {
    (spec_str_label(c.pool.len() as int), SpecCtx { pool: c.pool.push(s), ..c })
}

/// The fresh label handed out for a prefix, and the context after.
pub open spec fn spec_generate_label(c: SpecCtx, prefix: Seq<char>) -> (Seq<char>, SpecCtx) {
    (
        spec_label_text(prefix, c.label_counter),
        SpecCtx { label_counter: spec_bump_label(c.label_counter), ..c },
    )
}

impl CodeGenContext {
    /// A fresh context: no variables, no literals, no labels, no loops.
    pub fn new() -> (r: CodeGenContext)
        ensures
            r@.vars =~= Seq::<(Seq<char>, u64)>::empty(),
            r@.var_types =~= Seq::<(Seq<char>, Type)>::empty(),
            r@.stack_offset == 0,
            r@.pool =~= Seq::<Seq<char>>::empty(),
            r@.label_counter == 0,
            r@.loop_stack =~= Seq::<Seq<char>>::empty(),
    {
        CodeGenContext {
            variables: Vec::new(),
            variable_types: Vec::new(),
            stack_offset: 0,
            string_literals: Vec::new(),
            label_counter: 0,
            loop_stack: Vec::new(),
        }
    }

    /// Assigns the next sequential four-byte frame slot to a name and
    /// records its type.  Offsets only ever increase within a function;
    /// slots are never reused or reclaimed.
    pub fn allocate_variable(&mut self, name: String, var_type: Type) -> (offset: u64)
        ensures
            (offset, final(self)@) == spec_alloc(old(self)@, name@, var_type),
    {
        let offset = self.stack_offset;
        if self.stack_offset > u64::MAX - 4 {
            self.stack_offset = u64::MAX;
        } else {
            self.stack_offset = self.stack_offset + 4;
        }
        self.variables.push((name.clone(), offset));
        self.variable_types.push((name, var_type));
        proof {
            assert(vars_view(final(self).variables@) =~= vars_view(old(self).variables@).push(
                (name@, offset),
            ));
            assert(types_view(final(self).variable_types@) =~= types_view(
                old(self).variable_types@,
            ).push((name@, var_type)));
        }
        offset
    }

    /// The frame offset recorded for a name, if any; the latest allocation
    /// under the name wins.
    pub fn get_variable_offset(&mut self, name: &str) -> (r: Option<u64>)
        ensures
            r == assoc_lookup(old(self)@.vars, name@),
            *final(self) == *old(self),
    {
        let n = self.variables.len();
        let ghost vs = vars_view(self.variables@);
        let mut i: usize = n;
        proof {
            assert(vs.take(n as int) =~= vs);
        }
        while i > 0
            invariant
                i <= n,
                n == self.variables@.len(),
                vs == vars_view(self.variables@),
                assoc_lookup(vs.take(i as int), name@) == assoc_lookup(vs, name@),
            decreases i,
        {
            i = i - 1;
            proof {
                assert(vs[i as int] == (self.variables@[i as int].0@, self.variables@[i as int].1));
                assert(vs.take(i as int + 1).last() == vs[i as int]);
                assert(vs.take(i as int + 1).drop_last() =~= vs.take(i as int));
            }
            if str_eq(self.variables[i].0.as_str(), name) {
                return Some(self.variables[i].1);
            }
        }
        proof {
            assert(vs.take(0) =~= Seq::<(Seq<char>, u64)>::empty());
        }
        None
    }

    /// The declared type recorded for a name, if any; the latest
    /// allocation under the name wins.
    pub fn get_variable_type(&self, name: &str) -> (r: Option<&Type>)
        ensures
            ({
                let sp = assoc_lookup(self@.var_types, name@);
                &&& (r is Some ==> sp is Some && *r->0 == sp->0)
                &&& (r is None ==> sp is None)
            }),
    {
        let n = self.variable_types.len();
        let ghost vs = types_view(self.variable_types@);
        let mut i: usize = n;
        proof {
            assert(vs.take(n as int) =~= vs);
        }
        while i > 0
            invariant
                i <= n,
                n == self.variable_types@.len(),
                vs == types_view(self.variable_types@),
                assoc_lookup(vs.take(i as int), name@) == assoc_lookup(vs, name@),
            decreases i,
        {
            i = i - 1;
            proof {
                assert(vs[i as int] == (
                    self.variable_types@[i as int].0@,
                    self.variable_types@[i as int].1,
                ));
                assert(vs.take(i as int + 1).last() == vs[i as int]);
                assert(vs.take(i as int + 1).drop_last() =~= vs.take(i as int));
            }
            if str_eq(self.variable_types[i].0.as_str(), name) {
                return Some(&self.variable_types[i].1);
            }
        }
        proof {
            assert(vs.take(0) =~= Seq::<(Seq<char>, Type)>::empty());
        }
        None
    }

    /// Interns a string literal and returns its data label: literals get
    /// sequential labels in discovery order, without deduplication.
    pub fn add_string_literal(&mut self, s: String) -> (label: String)
        ensures
            (label@, final(self)@) == spec_add_string(old(self)@, s@),
    {
        let mut label = String::from_str("str_");
        let idx = dec_u128(self.string_literals.len() as u128);
        label.append(idx.as_str());
        self.string_literals.push(s);
        proof {
            assert(strings_view(final(self).string_literals@) =~= strings_view(
                old(self).string_literals@,
            ).push(s@));
        }
        label
    }

    /// Hands out a fresh control-flow label `prefix_counter` and advances
    /// the counter.
    pub fn generate_label(&mut self, prefix: &str) -> (label: String)
        ensures
            (label@, final(self)@) == spec_generate_label(old(self)@, prefix@),
    {
        let mut label = String::from_str(prefix);
        label.append("_");
        let idx = dec_u128(self.label_counter as u128);
        label.append(idx.as_str());
        if self.label_counter < u64::MAX {
            self.label_counter = self.label_counter + 1;
        }
        label
    }

    /// Opens a loop: its exit label becomes the innermost.
    pub fn enter_loop(&mut self, end_label: String)
        ensures
            final(self)@ == (SpecCtx {
                loop_stack: old(self)@.loop_stack.push(end_label@),
                ..old(self)@
            }),
    {
        self.loop_stack.push(end_label);
        proof {
            assert(strings_view(final(self).loop_stack@) =~= strings_view(
                old(self).loop_stack@,
            ).push(end_label@));
        }
    }

    /// Closes the innermost loop; on no open loop nothing changes.
    pub fn exit_loop(&mut self)
        ensures
            old(self)@.loop_stack.len() > 0 ==> final(self)@ == (SpecCtx {
                loop_stack: old(self)@.loop_stack.drop_last(),
                ..old(self)@
            }),
            old(self)@.loop_stack.len() == 0 ==> final(self)@ == old(self)@,
    {
        let _ = self.loop_stack.pop();
        proof {
            if old(self)@.loop_stack.len() > 0 {
                assert(strings_view(final(self).loop_stack@) =~= strings_view(
                    old(self).loop_stack@,
                ).drop_last());
            }
        }
    }

    /// The exit label of the innermost open loop, if any.
    pub fn current_loop_end(&self) -> (r: Option<&String>)
        ensures
            ({
                let st = self@.loop_stack;
                &&& (r is Some ==> st.len() > 0 && r->0@ == st.last())
                &&& (r is None ==> st.len() == 0)
            }),
    {
        self.loop_stack.last()
    }
}

} // verus!
