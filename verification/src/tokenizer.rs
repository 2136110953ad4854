//! Tokenization: classifies each fragment, independently of its neighbours,
//! into exactly one token.  Tokenization never fails; fragments that fit no
//! rule become `Unknown` tokens for the parser to reject.
use vstd::prelude::*;

use crate::chars::push_char;
use crate::chars::spec_is_alphabetic;
use crate::chars::spec_is_alphanumeric;
use crate::chars::str_eq;
use crate::chars::str_to_chars;
use crate::numerals::spec_parse_i64;
use crate::numerals::parse_i64_chars;

verus! {

/// A lexical token.  Literal payloads keep what the fragment carried;
/// floating literals keep their raw text, since no later stage computes
/// with their value.
#[derive(Clone, Debug, PartialEq)]
pub enum Token {
    /// type keyword "based" (32-bit integer)
    Based,
    /// type keyword "superBased" (64-bit integer)
    SuperBased,
    /// type keyword "chill" (floating point)
    Chill,
    /// type keyword "chad" (character)
    Chad,
    /// type keyword "vibes" (string)
    Vibes,
    /// type keyword "ghost" (void)
    Void,
    /// boolean literal "cap" (false)
    Cap,
    /// boolean literal "fr" (true)
    Fr,
    /// assignment keyword "slay"
    Slay,
    Plus,
    Minus,
    Star,
    Slash,
    Equal,
    NotEqual,
    Less,
    Greater,
    LessEq,
    GreaterEq,
    /// print keyword "flex"
    Flex,
    /// return keyword "yeet"
    Yeet,
    /// for keyword "sixSeven"
    SixSeven,
    /// if keyword "ong"
    Ong,
    /// else keyword "nah"
    Nah,
    /// while keyword "mewing"
    Mewing,
    /// break keyword "ohio"
    Ohio,
    /// function keyword "bussin"
    Bussin,
    /// main-name keyword "sigma"
    Sigma,
    /// struct keyword "skibidi" (reserved)
    Skibidi,
    /// pointer keyword "gyatt" (reserved)
    Gyatt,
    /// identifier
    Rizz(String),
    /// integer literal
    IntLit(i64),
    /// floating literal, kept as raw text
    FloatLit(String),
    /// string literal, quotes stripped
    StringLit(String),
    /// character literal, escapes resolved
    CharLit(char),
    OpenParen,
    CloseParen,
    OpenBrace,
    CloseBrace,
    Semicolon,
    Comma,
    /// fragment that fits no rule, kept verbatim
    Unknown(String),
}

/// Mathematical view of [`Token`].
pub enum SpecToken {
    Based,
    SuperBased,
    Chill,
    Chad,
    Vibes,
    Void,
    Cap,
    Fr,
    Slay,
    Plus,
    Minus,
    Star,
    Slash,
    Equal,
    NotEqual,
    Less,
    Greater,
    LessEq,
    GreaterEq,
    Flex,
    Yeet,
    SixSeven,
    Ong,
    Nah,
    Mewing,
    Ohio,
    Bussin,
    Sigma,
    Skibidi,
    Gyatt,
    Rizz(Seq<char>),
    IntLit(i64),
    FloatLit(Seq<char>),
    StringLit(Seq<char>),
    CharLit(char),
    OpenParen,
    CloseParen,
    OpenBrace,
    CloseBrace,
    Semicolon,
    Comma,
    Unknown(Seq<char>),
}

impl View for Token {
    type V = SpecToken;

    open spec fn view(&self) -> SpecToken {
        match self {
            Token::Based => SpecToken::Based,
            Token::SuperBased => SpecToken::SuperBased,
            Token::Chill => SpecToken::Chill,
            Token::Chad => SpecToken::Chad,
            Token::Vibes => SpecToken::Vibes,
            Token::Void => SpecToken::Void,
            Token::Cap => SpecToken::Cap,
            Token::Fr => SpecToken::Fr,
            Token::Slay => SpecToken::Slay,
            Token::Plus => SpecToken::Plus,
            Token::Minus => SpecToken::Minus,
            Token::Star => SpecToken::Star,
            Token::Slash => SpecToken::Slash,
            Token::Equal => SpecToken::Equal,
            Token::NotEqual => SpecToken::NotEqual,
            Token::Less => SpecToken::Less,
            Token::Greater => SpecToken::Greater,
            Token::LessEq => SpecToken::LessEq,
            Token::GreaterEq => SpecToken::GreaterEq,
            Token::Flex => SpecToken::Flex,
            Token::Yeet => SpecToken::Yeet,
            Token::SixSeven => SpecToken::SixSeven,
            Token::Ong => SpecToken::Ong,
            Token::Nah => SpecToken::Nah,
            Token::Mewing => SpecToken::Mewing,
            Token::Ohio => SpecToken::Ohio,
            Token::Bussin => SpecToken::Bussin,
            Token::Sigma => SpecToken::Sigma,
            Token::Skibidi => SpecToken::Skibidi,
            Token::Gyatt => SpecToken::Gyatt,
            Token::Rizz(n) => SpecToken::Rizz(n@),
            Token::IntLit(v) => SpecToken::IntLit(*v),
            Token::FloatLit(t) => SpecToken::FloatLit(t@),
            Token::StringLit(s) => SpecToken::StringLit(s@),
            Token::CharLit(c) => SpecToken::CharLit(*c),
            Token::OpenParen => SpecToken::OpenParen,
            Token::CloseParen => SpecToken::CloseParen,
            Token::OpenBrace => SpecToken::OpenBrace,
            Token::CloseBrace => SpecToken::CloseBrace,
            Token::Semicolon => SpecToken::Semicolon,
            Token::Comma => SpecToken::Comma,
            Token::Unknown(s) => SpecToken::Unknown(s@),
        }
    }
}

/// The views of a token list.
pub open spec fn tokens_view(ts: Seq<Token>) -> Seq<SpecToken> {
    ts.map_values(|t: Token| t@)
}

/// Identifier rule: first character alphabetic or underscore, the rest
/// alphanumeric or underscore.
pub open spec fn is_identifier(s: Seq<char>) -> bool {
    &&& s.len() > 0
    &&& (spec_is_alphabetic(s[0]) || s[0] == '_')
    &&& forall|i: int| 1 <= i < s.len() ==> spec_is_alphanumeric(#[trigger] s[i]) || s[i] == '_'
}

/// Whether the fragment holds a decimal point.
pub open spec fn contains_dot(s: Seq<char>) -> bool {
    exists|i: int| 0 <= i < s.len() && s[i] == '.'
}

/// The fragment with an optional leading sign removed.
pub open spec fn float_body(s: Seq<char>) -> Seq<char> {
    if s.len() > 0 && (s[0] == '-' || s[0] == '+') {
        s.subrange(1, s.len() as int)
    } else {
        s
    }
}

/// Whether position `k` is the unique decimal point of `body` and every
/// other character is an ASCII digit.
pub open spec fn float_dot_at(body: Seq<char>, k: int) -> bool {
    &&& 0 <= k < body.len()
    &&& body[k] == '.'
    &&& forall|i: int|
        0 <= i < body.len() && i != k ==> crate::numerals::is_digit_char(#[trigger] body[i])
}

/// A well-formed floating literal: an optional sign, then digits with
/// exactly one decimal point among them and at least one digit.
pub open spec fn is_float_fragment(s: Seq<char>) -> bool {
    &&& float_body(s).len() >= 2
    &&& exists|k: int| float_dot_at(float_body(s), k)
}

/// The fixed escape set of character literals.
pub open spec fn escape_char(c: char) -> Option<char> {
    if c == 'n' {
        Some('\n')
    } else if c == 't' {
        Some('\t')
    } else if c == 'r' {
        Some('\r')
    } else if c == '0' {
        Some('\0')
    } else if c == '\\' {
        Some('\\')
    } else if c == '\'' {
        Some('\'')
    } else if c == '"' {
        Some('"')
    } else {
        None
    }
}

/// The token of a single character-literal fragment whose outer quotes are
/// already checked: resolves the content between the quotes.
pub open spec fn spec_char_token(s: Seq<char>) -> SpecToken {
    let content = s.subrange(1, s.len() - 1);
    if content.len() == 2 && content[0] == '\\' {
        match escape_char(content[1]) {
            Some(c) => SpecToken::CharLit(c),
            None => SpecToken::Unknown(s),
        }
    } else if content.len() == 1 {
        SpecToken::CharLit(content[0])
    } else {
        SpecToken::Unknown(s)
    }
}

/// The token of one fragment.  Priority order: keywords, structural symbols
/// and operators by exact match; then numeric literals (a fragment with a
/// decimal point is a floating literal or `Unknown`, otherwise a fragment
/// reading as a base-10 `i64` is an integer literal); then string literals
/// (double-quoted, length over one); then character literals (single-quoted,
/// length at least three); then identifiers; anything else is `Unknown`.
pub open spec fn spec_token_of(s: Seq<char>) -> SpecToken {
    if s == "based"@ {
        SpecToken::Based
    } else if s == "chill"@ {
        SpecToken::Chill
    } else if s == "superBased"@ {
        SpecToken::SuperBased
    } else if s == "vibes"@ {
        SpecToken::Vibes
    } else if s == "ghost"@ {
        SpecToken::Void
    } else if s == "cap"@ {
        SpecToken::Cap
    } else if s == "fr"@ {
        SpecToken::Fr
    } else if s == "slay"@ {
        SpecToken::Slay
    } else if s == "=="@ {
        SpecToken::Equal
    } else if s == "!="@ {
        SpecToken::NotEqual
    } else if s == "-"@ {
        SpecToken::Minus
    } else if s == "+"@ {
        SpecToken::Plus
    } else if s == "*"@ {
        SpecToken::Star
    } else if s == "/"@ {
        SpecToken::Slash
    } else if s == "<"@ {
        SpecToken::Less
    } else if s == ">"@ {
        SpecToken::Greater
    } else if s == "<="@ {
        SpecToken::LessEq
    } else if s == ">="@ {
        SpecToken::GreaterEq
    } else if s == "flex"@ {
        SpecToken::Flex
    } else if s == "chad"@ {
        SpecToken::Chad
    } else if s == "yeet"@ {
        SpecToken::Yeet
    } else if s == "sixSeven"@ {
        SpecToken::SixSeven
    } else if s == "ong"@ {
        SpecToken::Ong
    } else if s == "nah"@ {
        SpecToken::Nah
    } else if s == "mewing"@ {
        SpecToken::Mewing
    } else if s == "ohio"@ {
        SpecToken::Ohio
    } else if s == "bussin"@ {
        SpecToken::Bussin
    } else if s == "sigma"@ {
        SpecToken::Sigma
    } else if s == "skibidi"@ {
        SpecToken::Skibidi
    } else if s == "gyatt"@ {
        SpecToken::Gyatt
    } else if s == "("@ {
        SpecToken::OpenParen
    } else if s == ")"@ {
        SpecToken::CloseParen
    } else if s == "{"@ {
        SpecToken::OpenBrace
    } else if s == "}"@ {
        SpecToken::CloseBrace
    } else if s == ";"@ {
        SpecToken::Semicolon
    } else if s == ","@ {
        SpecToken::Comma
    } else if contains_dot(s) {
        if is_float_fragment(s) {
            SpecToken::FloatLit(s)
        } else {
            SpecToken::Unknown(s)
        }
    } else if spec_parse_i64(s) is Some {
        SpecToken::IntLit(spec_parse_i64(s)->Some_0)
    } else if s.len() > 1 && s[0] == '"' && s.last() == '"' {
        SpecToken::StringLit(s.subrange(1, s.len() - 1))
    } else if s.len() >= 3 && s[0] == '\'' && s.last() == '\'' {
        spec_char_token(s)
    } else if is_identifier(s) {
        SpecToken::Rizz(s)
    } else {
        SpecToken::Unknown(s)
    }
}

/// The tokens of a fragment list: one token per non-empty fragment, in order.
pub open spec fn spec_tokens(cs: Seq<Seq<char>>) -> Seq<SpecToken>
    decreases cs.len(),
{
    if cs.len() == 0 {
        Seq::empty()
    } else if cs.first().len() == 0 {
        spec_tokens(cs.drop_first())
    } else {
        seq![spec_token_of(cs.first())] + spec_tokens(cs.drop_first())
    }
}

/// Identifier check over a character vector.
fn is_valid_identifier_chars(cv: &Vec<char>) -> (r: bool)
    ensures
        r == is_identifier(cv@),
{
    let n = cv.len();
    if n == 0 {
        return false;
    }
    let first = cv[0];
    if !(first.is_alphabetic() || first == '_') {
        return false;
    }
    let mut i: usize = 1;
    while i < n
        invariant
            1 <= i <= n,
            n == cv@.len(),
            forall|j: int|
                1 <= j < i ==> spec_is_alphanumeric(#[trigger] cv@[j]) || cv@[j] == '_',
        decreases n - i,
    {
        let c = cv[i];
        if !(c.is_alphanumeric() || c == '_') {
            return false;
        }
        i = i + 1;
    }
    true
}

/// Identifier rule on a string slice: first character alphabetic or
/// underscore, remaining characters alphanumeric or underscore.
pub fn is_valid_identifier(s: &str) -> (r: bool)
    ensures
        r == is_identifier(s@),
{
    let cv = str_to_chars(s);
    is_valid_identifier_chars(&cv)
}

/// Checks the float-literal shape: optional sign, then digits holding
/// exactly one decimal point, at least one digit among them.
fn check_float_fragment(cv: &Vec<char>) -> (r: bool)
    ensures
        r == is_float_fragment(cv@),
{
    let n = cv.len();
    let ghost s = cv@;
    let mut start: usize = 0;
    if n > 0 && (cv[0] == '-' || cv[0] == '+') {
        start = 1;
    }
    let ghost body = float_body(s);
    proof {
        if start == 1 {
            assert(body == s.subrange(1, s.len() as int));
        } else {
            assert(body == s);
        }
    }
    if n - start < 2 {
        return false;
    }
    let mut dot: usize = n;
    let mut i: usize = start;
    while i < n
        invariant
            start <= i <= n,
            n == s.len(),
            cv@ == s,
            start == 0 || start == 1,
            start == 1 ==> s.len() > 0 && (s[0] == '-' || s[0] == '+'),
            start == 0 ==> !(s.len() > 0 && (s[0] == '-' || s[0] == '+')),
            body == float_body(s),
            body.len() == n - start,
            dot == n || (start <= dot < i && body[dot - start] == '.'),
            forall|j: int|
                0 <= j < i - start && j != dot - start ==> crate::numerals::is_digit_char(
                    #[trigger] body[j],
                ),
            dot == n ==> forall|j: int| 0 <= j < i - start ==> body[j] != '.',
        decreases n - i,
    {
        let c = cv[i];
        if c == '.' {
            if dot < n {
                // a second decimal point: no position can satisfy the shape
                proof {
                    if is_float_fragment(s) {
                        let k = choose|k: int| float_dot_at(float_body(s), k);
                        assert(float_dot_at(body, k));
                        if k != dot - start {
                            assert(crate::numerals::is_digit_char(body[dot - start]));
                        } else {
                            assert(body[i - start] == '.');
                            assert(crate::numerals::is_digit_char(body[i - start]));
                        }
                    }
                }
                return false;
            }
            dot = i;
        } else {
            let code: u32 = c as u32;
            if code < 48 || code > 57 {
                // neither a digit nor the point: the shape cannot hold
                proof {
                    if is_float_fragment(s) {
                        let k = choose|k: int| float_dot_at(float_body(s), k);
                        assert(float_dot_at(body, k));
                        assert(body[i - start] == c);
                        assert(k != i - start);
                        assert(crate::numerals::is_digit_char(body[i - start]));
                    }
                }
                return false;
            }
        }
        i = i + 1;
    }
    if dot == n {
        // no decimal point at all
        proof {
            if is_float_fragment(s) {
                let k = choose|k: int| float_dot_at(float_body(s), k);
                assert(float_dot_at(body, k));
                assert(body[k] != '.');
            }
        }
        return false;
    }
    proof {
        let k = dot - start;
        assert(float_dot_at(body, k));
        assert(float_dot_at(float_body(s), k));
    }
    true
}

/// Maps one non-empty fragment to its token.
fn tokenize_fragment(chunk: &String) -> (t: Token)
    ensures
        t@ == spec_token_of(chunk@),
{
    if str_eq(chunk.as_str(), "based") {
        return Token::Based;
    }
    if str_eq(chunk.as_str(), "chill") {
        return Token::Chill;
    }
    if str_eq(chunk.as_str(), "superBased") {
        return Token::SuperBased;
    }
    if str_eq(chunk.as_str(), "vibes") {
        return Token::Vibes;
    }
    if str_eq(chunk.as_str(), "ghost") {
        return Token::Void;
    }
    if str_eq(chunk.as_str(), "cap") {
        return Token::Cap;
    }
    if str_eq(chunk.as_str(), "fr") {
        return Token::Fr;
    }
    if str_eq(chunk.as_str(), "slay") {
        return Token::Slay;
    }
    if str_eq(chunk.as_str(), "==") {
        return Token::Equal;
    }
    if str_eq(chunk.as_str(), "!=") {
        return Token::NotEqual;
    }
    if str_eq(chunk.as_str(), "-") {
        return Token::Minus;
    }
    if str_eq(chunk.as_str(), "+") {
        return Token::Plus;
    }
    if str_eq(chunk.as_str(), "*") {
        return Token::Star;
    }
    if str_eq(chunk.as_str(), "/") {
        return Token::Slash;
    }
    if str_eq(chunk.as_str(), "<") {
        return Token::Less;
    }
    if str_eq(chunk.as_str(), ">") {
        return Token::Greater;
    }
    if str_eq(chunk.as_str(), "<=") {
        return Token::LessEq;
    }
    if str_eq(chunk.as_str(), ">=") {
        return Token::GreaterEq;
    }
    if str_eq(chunk.as_str(), "flex") {
        return Token::Flex;
    }
    if str_eq(chunk.as_str(), "chad") {
        return Token::Chad;
    }
    if str_eq(chunk.as_str(), "yeet") {
        return Token::Yeet;
    }
    if str_eq(chunk.as_str(), "sixSeven") {
        return Token::SixSeven;
    }
    if str_eq(chunk.as_str(), "ong") {
        return Token::Ong;
    }
    if str_eq(chunk.as_str(), "nah") {
        return Token::Nah;
    }
    if str_eq(chunk.as_str(), "mewing") {
        return Token::Mewing;
    }
    if str_eq(chunk.as_str(), "ohio") {
        return Token::Ohio;
    }
    if str_eq(chunk.as_str(), "bussin") {
        return Token::Bussin;
    }
    if str_eq(chunk.as_str(), "sigma") {
        return Token::Sigma;
    }
    if str_eq(chunk.as_str(), "skibidi") {
        return Token::Skibidi;
    }
    if str_eq(chunk.as_str(), "gyatt") {
        return Token::Gyatt;
    }
    if str_eq(chunk.as_str(), "(") {
        return Token::OpenParen;
    }
    if str_eq(chunk.as_str(), ")") {
        return Token::CloseParen;
    }
    if str_eq(chunk.as_str(), "{") {
        return Token::OpenBrace;
    }
    if str_eq(chunk.as_str(), "}") {
        return Token::CloseBrace;
    }
    if str_eq(chunk.as_str(), ";") {
        return Token::Semicolon;
    }
    if str_eq(chunk.as_str(), ",") {
        return Token::Comma;
    }
    let cv = str_to_chars(chunk.as_str());
    let n = cv.len();
    let mut has_dot = false;
    let mut i: usize = 0;
    while i < n
        invariant
            i <= n,
            n == chunk@.len(),
            cv@ == chunk@,
            has_dot == exists|j: int| 0 <= j < i && chunk@[j] == '.',
        decreases n - i,
    {
        if cv[i] == '.' {
            has_dot = true;
        }
        i = i + 1;
    }
    if has_dot {
        if check_float_fragment(&cv) {
            return Token::FloatLit(chunk.clone());
        } else {
            return Token::Unknown(chunk.clone());
        }
    }
    assert(!contains_dot(chunk@));
    match parse_i64_chars(&cv) {
        Some(v) => {
            return Token::IntLit(v);
        },
        None => {},
    }
    if n > 1 && cv[0] == '"' && cv[n - 1] == '"' {
        let mut content = String::new();
        let mut j: usize = 1;
        while j < n - 1
            invariant
                1 <= j <= n - 1,
                n == chunk@.len(),
                n > 1,
                cv@ == chunk@,
                content@ == chunk@.subrange(1, j as int),
            decreases n - 1 - j,
        {
            push_char(&mut content, cv[j]);
            j = j + 1;
            assert(content@ =~= chunk@.subrange(1, j as int));
        }
        return Token::StringLit(content);
    }
    if n >= 3 && cv[0] == '\'' && cv[n - 1] == '\'' {
        let ghost content = chunk@.subrange(1, n - 1);
        assert(content.len() == n - 2);
        if n == 4 && cv[1] == '\\' {
            assert(content[0] == '\\' && content[1] == chunk@[2]);
            let e = cv[2];
            let resolved: Option<char> = if e == 'n' {
                Some('\n')
            } else if e == 't' {
                Some('\t')
            } else if e == 'r' {
                Some('\r')
            } else if e == '0' {
                Some('\0')
            } else if e == '\\' {
                Some('\\')
            } else if e == '\'' {
                Some('\'')
            } else if e == '"' {
                Some('"')
            } else {
                None
            };
            match resolved {
                Some(c) => {
                    return Token::CharLit(c);
                },
                None => {
                    return Token::Unknown(chunk.clone());
                },
            }
        }
        if n == 3 {
            assert(content.len() == 1 && content[0] == chunk@[1]);
            return Token::CharLit(cv[1]);
        }
        assert(!(content.len() == 2 && content[0] == '\\'));
        assert(content.len() != 1);
        return Token::Unknown(chunk.clone());
    }
    if is_valid_identifier_chars(&cv) {
        return Token::Rizz(chunk.clone());
    }
    Token::Unknown(chunk.clone())
}

/// Maps each non-empty fragment to exactly one token, in order; empty
/// fragments are skipped.  Tokenization never fails.
pub fn tokenizer(chunks: Vec<String>) -> (tokens: Vec<Token>)
    ensures
        tokens_view(tokens@) == spec_tokens(crate::chunker::frags_view(chunks@)),
{
    let ghost fv = crate::chunker::frags_view(chunks@);
    let n = chunks.len();
    let mut tokens: Vec<Token> = Vec::new();
    let mut i: usize = 0;
    proof {
        assert(fv.skip(0) =~= fv);
        assert(tokens_view(tokens@) + spec_tokens(fv) =~= spec_tokens(fv));
    }
    while i < n
        invariant
            i <= n,
            n == chunks@.len(),
            fv == crate::chunker::frags_view(chunks@),
            tokens_view(tokens@) + spec_tokens(fv.skip(i as int)) =~= spec_tokens(fv),
        decreases n - i,
    {
        let ghost pre = tokens@;
        let chunk = &chunks[i];
        proof {
            assert(fv.skip(i as int).first() == chunk@);
            assert(fv.skip(i as int).drop_first() =~= fv.skip(i as int + 1));
        }
        if !chunk.as_str().is_empty() {
            let t = tokenize_fragment(chunk);
            tokens.push(t);
            proof {
                assert(tokens_view(tokens@) =~= tokens_view(pre).push(t@));
            }
        }
        i = i + 1;
    }
    proof {
        assert(fv.skip(n as int) =~= Seq::empty());
    }
    tokens
}

} // verus!
