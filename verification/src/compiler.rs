//! The compilation pipeline: text to fragments to tokens to tree to
//! validated tree to assembly text, each stage failing fast with one
//! descriptive error.
use vstd::prelude::*;

use crate::chunker::chunker;
use crate::chunker::spec_chunker;
use crate::parser::parse;
use crate::parser::sp_parse;
use crate::riscv::generate_riscv;
use crate::riscv::spec_generate_riscv;
use crate::semantic::analyze_program;
use crate::semantic::spec_analyze_program;
use crate::tokenizer::SpecToken;
use crate::tokenizer::spec_tokens;
use crate::tokenizer::tokenizer;
use crate::ast::SpecProgram;

verus! {

/// What compiling a source text yields: its fragments are tokenized, the
/// tokens parsed, the tree validated, and the validated tree lowered; the
/// first error of any stage is the overall result.
pub open spec fn spec_compile(code: Seq<char>) -> Result<Seq<char>, Seq<char>> {
    match sp_parse(spec_tokens(spec_chunker(code))) {
        Ok(p) => match spec_analyze_program(p) {
            Ok(_) => spec_generate_riscv(p),
            Err(m) => Err(m),
        },
        Err(m) => Err(m),
    }
}

/// Translates one source text into RISC-V RV32IM assembly text, or fails
/// with a single descriptive error from the first stage that rejects it.
pub fn compile(code: &str) -> (r: Result<String, String>)
    ensures
        ({
            let sp = spec_compile(code@);
            &&& (r is Ok ==> sp is Ok && r->Ok_0@ == sp->Ok_0)
            &&& (r is Err ==> sp is Err && r->Err_0@ == sp->Err_0)
        }),
{
    let chunks = chunker(code);
    let tokens = tokenizer(chunks);
    let ast = match parse(tokens) {
        Ok(p) => p,
        Err(m) => {
            return Err(m);
        },
    };
    match analyze_program(&ast) {
        Ok(_) => {},
        Err(m) => {
            return Err(m);
        },
    }
    generate_riscv(&ast)
}

/// Tokenizing the chunked output of one source text is deterministic: two
/// runs over the same input yield identical token sequences.
pub proof fn lemma_tokenization_deterministic(code: Seq<char>, t1: Seq<SpecToken>, t2: Seq<
    SpecToken,
>)
    requires
        t1 == spec_tokens(spec_chunker(code)),
        t2 == spec_tokens(spec_chunker(code)),
    ensures
        t1 == t2,
{
}

/// Parsing one fixed token sequence is deterministic: two runs yield
/// structurally identical trees (or the same error).
pub proof fn lemma_parse_deterministic(
    ts: Seq<SpecToken>,
    r1: Result<SpecProgram, Seq<char>>,
    r2: Result<SpecProgram, Seq<char>>,
)
    requires
        r1 == sp_parse(ts),
        r2 == sp_parse(ts),
    ensures
        r1 == r2,
{
}

} // verus!
