//! Lexical chunking: splits source text into non-empty fragments, respecting
//! string and character quoting and merging two-character operators.
use vstd::prelude::*;

use crate::chars::push_char;
use crate::chars::spec_is_whitespace;
use crate::chars::str_to_chars;

verus! {

/// Whether `a` followed by `b` forms one of the merged operators
/// `==`, `!=`, `<=`, `>=`.
pub open spec fn is_two_char_op(a: char, b: char) -> bool {
    (a == '=' || a == '!' || a == '<' || a == '>') && b == '='
}

/// The single-character operators `+ - * / = < > !`.
pub open spec fn is_operator_char(c: char) -> bool {
    c == '+' || c == '-' || c == '*' || c == '/' || c == '=' || c == '<' || c == '>' || c == '!'
}

/// The structural symbols `( ) { } ; ,`.
pub open spec fn is_symbol_char(c: char) -> bool {
    c == '(' || c == ')' || c == '{' || c == '}' || c == ';' || c == ','
}

/// The fragment in progress, emitted if non-empty.
pub open spec fn flush_chunk(cur: Seq<char>) -> Seq<Seq<char>> {
    if cur.len() > 0 {
        seq![cur]
    } else {
        Seq::empty()
    }
}

/// The fragments still to be emitted from position `i` on, given the
/// fragment in progress and the quoting mode.  One rule fires per character,
/// in priority order: double quote, single quote, quoted verbatim text,
/// two-character operator, single-character operator, structural symbol,
/// whitespace, plain accumulation.  A quote boundary closes the fragment in
/// progress before the quote character itself is considered.
pub open spec fn spec_chunks_from(
    cs: Seq<char>,
    i: int,
    cur: Seq<char>,
    in_string: bool,
    in_char: bool,
) -> Seq<Seq<char>>
    decreases cs.len() - i,
{
    if i < 0 || i >= cs.len() {
        flush_chunk(cur)
    } else {
        let c = cs[i];
        if c == '"' && !in_char {
            if in_string {
                seq![cur.push('"')] + spec_chunks_from(cs, i + 1, Seq::empty(), false, false)
            } else {
                flush_chunk(cur) + spec_chunks_from(cs, i + 1, seq!['"'], true, false)
            }
        } else if c == '\'' && !in_string {
            if in_char {
                seq![cur.push('\'')] + spec_chunks_from(cs, i + 1, Seq::empty(), false, false)
            } else {
                flush_chunk(cur) + spec_chunks_from(cs, i + 1, seq!['\''], false, true)
            }
        } else if in_string || in_char {
            spec_chunks_from(cs, i + 1, cur.push(c), in_string, in_char)
        } else if i + 1 < cs.len() && is_two_char_op(c, cs[i + 1]) {
            flush_chunk(cur) + seq![seq![c, cs[i + 1]]] + spec_chunks_from(
                cs,
                i + 2,
                Seq::empty(),
                false,
                false,
            )
        } else if is_operator_char(c) || is_symbol_char(c) {
            flush_chunk(cur) + seq![seq![c]] + spec_chunks_from(cs, i + 1, Seq::empty(), false, false)
        } else if spec_is_whitespace(c) {
            flush_chunk(cur) + spec_chunks_from(cs, i + 1, Seq::empty(), false, false)
        } else {
            spec_chunks_from(cs, i + 1, cur.push(c), false, false)
        }
    }
}

/// The fragments of a whole source text.
pub open spec fn spec_chunker(cs: Seq<char>) -> Seq<Seq<char>> {
    spec_chunks_from(cs, 0, Seq::empty(), false, false)
}

/// The character sequences of a list of fragments.
pub open spec fn frags_view(ss: Seq<String>) -> Seq<Seq<char>> {
    ss.map_values(|s: String| s@)
}

/// Whether every fragment in a list is non-empty.
pub open spec fn all_nonempty(ss: Seq<Seq<char>>) -> bool {
    forall|k: int| 0 <= k < ss.len() ==> (#[trigger] ss[k]).len() > 0
}

/// Concatenation preserves non-emptiness of the fragments.
proof fn lemma_all_nonempty_add(a: Seq<Seq<char>>, b: Seq<Seq<char>>)
    requires
        all_nonempty(a),
        all_nonempty(b),
    ensures
        all_nonempty(a + b),
{
    assert forall|k: int| 0 <= k < (a + b).len() implies (#[trigger] (a + b)[k]).len() > 0 by {
        if k < a.len() {
            assert((a + b)[k] == a[k]);
        } else {
            assert((a + b)[k] == b[k - a.len()]);
        }
    }
}

/// Every fragment the chunker emits is non-empty.
pub proof fn lemma_chunks_from_nonempty(
    cs: Seq<char>,
    i: int,
    cur: Seq<char>,
    in_string: bool,
    in_char: bool,
)
    ensures
        all_nonempty(spec_chunks_from(cs, i, cur, in_string, in_char)),
    decreases cs.len() - i,
{
    if i < 0 || i >= cs.len() {
        assert(all_nonempty(flush_chunk(cur)));
    } else {
        let c = cs[i];
        assert(all_nonempty(flush_chunk(cur)));
        if c == '"' && !in_char {
            lemma_chunks_from_nonempty(cs, i + 1, Seq::empty(), false, false);
            lemma_chunks_from_nonempty(cs, i + 1, seq!['"'], true, false);
            if in_string {
                lemma_all_nonempty_add(
                    seq![cur.push('"')],
                    spec_chunks_from(cs, i + 1, Seq::empty(), false, false),
                );
            } else {
                lemma_all_nonempty_add(
                    flush_chunk(cur),
                    spec_chunks_from(cs, i + 1, seq!['"'], true, false),
                );
            }
        } else if c == '\'' && !in_string {
            lemma_chunks_from_nonempty(cs, i + 1, Seq::empty(), false, false);
            lemma_chunks_from_nonempty(cs, i + 1, seq!['\''], false, true);
            if in_char {
                lemma_all_nonempty_add(
                    seq![cur.push('\'')],
                    spec_chunks_from(cs, i + 1, Seq::empty(), false, false),
                );
            } else {
                lemma_all_nonempty_add(
                    flush_chunk(cur),
                    spec_chunks_from(cs, i + 1, seq!['\''], false, true),
                );
            }
        } else if in_string || in_char {
            lemma_chunks_from_nonempty(cs, i + 1, cur.push(c), in_string, in_char);
        } else if i + 1 < cs.len() && is_two_char_op(c, cs[i + 1]) {
            lemma_chunks_from_nonempty(cs, i + 2, Seq::empty(), false, false);
            lemma_all_nonempty_add(flush_chunk(cur), seq![seq![c, cs[i + 1]]]);
            lemma_all_nonempty_add(
                flush_chunk(cur) + seq![seq![c, cs[i + 1]]],
                spec_chunks_from(cs, i + 2, Seq::empty(), false, false),
            );
        } else if is_operator_char(c) || is_symbol_char(c) {
            lemma_chunks_from_nonempty(cs, i + 1, Seq::empty(), false, false);
            lemma_all_nonempty_add(flush_chunk(cur), seq![seq![c]]);
            lemma_all_nonempty_add(
                flush_chunk(cur) + seq![seq![c]],
                spec_chunks_from(cs, i + 1, Seq::empty(), false, false),
            );
        } else if spec_is_whitespace(c) {
            lemma_chunks_from_nonempty(cs, i + 1, Seq::empty(), false, false);
            lemma_all_nonempty_add(
                flush_chunk(cur),
                spec_chunks_from(cs, i + 1, Seq::empty(), false, false),
            );
        } else {
            lemma_chunks_from_nonempty(cs, i + 1, cur.push(c), false, false);
        }
    }
}

/// Splits source text into an ordered sequence of non-empty fragments.
///
/// A double quote outside a character literal opens or closes a string
/// fragment, kept verbatim with both quotes; a single quote outside a string
/// does the same for a character fragment; outside quotes, `== != <= >=` are
/// emitted as single two-character fragments, the operators `+ - * / = < > !`
/// and the symbols `( ) { } ; ,` as one-character fragments, whitespace only
/// terminates the fragment being accumulated, and any other character
/// accumulates.  A non-empty fragment in progress is flushed at end of input.
pub fn chunker(code: &str) -> (chunks: Vec<String>)
    ensures
        frags_view(chunks@) == spec_chunker(code@),
        all_nonempty(frags_view(chunks@)),
{
    proof {
        lemma_chunks_from_nonempty(code@, 0, Seq::empty(), false, false);
    }
    let cs = str_to_chars(code);
    let n = cs.len();
    let mut chunks: Vec<String> = Vec::new();
    let mut chunk = String::new();
    let mut in_string = false;
    let mut in_char = false;
    let mut i: usize = 0;
    while i < n
        invariant
            i <= n,
            n == cs@.len(),
            cs@ == code@,
            frags_view(chunks@) + spec_chunks_from(code@, i as int, chunk@, in_string, in_char)
                =~= spec_chunker(code@),
        decreases n - i,
    {
        let ghost pre_chunks = chunks@;
        let ghost pre_cur = chunk@;
        let c = cs[i];
        if c == '"' && !in_char {
            if in_string {
                push_char(&mut chunk, c);
                chunks.push(chunk);
                chunk = String::new();
                in_string = false;
                proof {
                    assert(frags_view(chunks@) =~= frags_view(pre_chunks).push(pre_cur.push('"')));
                }
            } else {
                if !chunk.as_str().is_empty() {
                    chunks.push(chunk);
                    chunk = String::new();
                    proof {
                        assert(frags_view(chunks@) =~= frags_view(pre_chunks).push(pre_cur));
                    }
                }
                push_char(&mut chunk, c);
                in_string = true;
                proof {
                    assert(chunk@ =~= seq!['"']);
                }
            }
            i = i + 1;
        } else if c == '\'' && !in_string {
            if in_char {
                push_char(&mut chunk, c);
                chunks.push(chunk);
                chunk = String::new();
                in_char = false;
                proof {
                    assert(frags_view(chunks@) =~= frags_view(pre_chunks).push(pre_cur.push('\'')));
                }
            } else {
                if !chunk.as_str().is_empty() {
                    chunks.push(chunk);
                    chunk = String::new();
                    proof {
                        assert(frags_view(chunks@) =~= frags_view(pre_chunks).push(pre_cur));
                    }
                }
                push_char(&mut chunk, c);
                in_char = true;
                proof {
                    assert(chunk@ =~= seq!['\'']);
                }
            }
            i = i + 1;
        } else if in_string || in_char {
            push_char(&mut chunk, c);
            i = i + 1;
        } else if i + 1 < n && (c == '=' || c == '!' || c == '<' || c == '>') && cs[i + 1] == '=' {
            if !chunk.as_str().is_empty() {
                chunks.push(chunk);
                chunk = String::new();
                proof {
                    assert(frags_view(chunks@) =~= frags_view(pre_chunks).push(pre_cur));
                }
            }
            assert(chunk@ =~= Seq::<char>::empty());
            let mut op = String::new();
            push_char(&mut op, c);
            push_char(&mut op, cs[i + 1]);
            proof {
                assert(op@ =~= seq![c, code@[i + 1]]);
            }
            let ghost mid_chunks = chunks@;
            chunks.push(op);
            proof {
                assert(frags_view(chunks@) =~= frags_view(mid_chunks).push(seq![c, code@[i + 1]]));
            }
            i = i + 2;
        } else if c == '+' || c == '-' || c == '*' || c == '/' || c == '=' || c == '<' || c == '>'
            || c == '!' || c == '(' || c == ')' || c == '{' || c == '}' || c == ';' || c == ',' {
            if !chunk.as_str().is_empty() {
                chunks.push(chunk);
                chunk = String::new();
                proof {
                    assert(frags_view(chunks@) =~= frags_view(pre_chunks).push(pre_cur));
                }
            }
            assert(chunk@ =~= Seq::<char>::empty());
            let mut op = String::new();
            push_char(&mut op, c);
            proof {
                assert(op@ =~= seq![c]);
            }
            let ghost mid_chunks = chunks@;
            chunks.push(op);
            proof {
                assert(frags_view(chunks@) =~= frags_view(mid_chunks).push(seq![c]));
            }
            i = i + 1;
        } else if c.is_whitespace() {
            if !chunk.as_str().is_empty() {
                chunks.push(chunk);
                chunk = String::new();
                proof {
                    assert(frags_view(chunks@) =~= frags_view(pre_chunks).push(pre_cur));
                }
            }
            assert(chunk@ =~= Seq::<char>::empty());
            i = i + 1;
        } else {
            push_char(&mut chunk, c);
            i = i + 1;
        }
    }
    if !chunk.as_str().is_empty() {
        let ghost pre_chunks = chunks@;
        let ghost pre_cur = chunk@;
        chunks.push(chunk);
        proof {
            assert(frags_view(chunks@) =~= frags_view(pre_chunks).push(pre_cur));
        }
    }
    chunks
}

} // verus!
