use sigmac::chunker::chunker;
use sigmac::tokenizer::Token;
use sigmac::tokenizer::is_valid_identifier;
use sigmac::tokenizer::tokenizer;

#[test]
fn chunks_split_on_whitespace_and_operators() {
    let chunks = chunker("based x slay 2+3;");
    assert_eq!(chunks, vec!["based", "x", "slay", "2", "+", "3", ";"]);
}

#[test]
fn chunks_keep_quoted_strings_verbatim() {
    let chunks = chunker("flex \"hi there\";");
    assert_eq!(chunks, vec!["flex", "\"hi there\"", ";"]);
}

#[test]
fn chunks_merge_two_char_operators() {
    let chunks = chunker("a<=b == c != d >= e");
    assert_eq!(chunks, vec!["a", "<=", "b", "==", "c", "!=", "d", ">=", "e"]);
}

#[test]
fn chunks_split_single_operators_and_symbols() {
    let chunks = chunker("(a-b)*{c}/d,e;!f");
    assert_eq!(
        chunks,
        vec!["(", "a", "-", "b", ")", "*", "{", "c", "}", "/", "d", ",", "e", ";", "!", "f"]
    );
}

#[test]
fn chunks_keep_character_literals() {
    let chunks = chunker("chad c slay 'a';");
    assert_eq!(chunks, vec!["chad", "c", "slay", "'a'", ";"]);
}

#[test]
fn chunk_quote_closes_fragment_in_progress() {
    let chunks = chunker("abc\"x\"");
    assert_eq!(chunks, vec!["abc", "\"x\""]);
}

#[test]
fn unterminated_string_is_flushed_at_end() {
    let chunks = chunker("\"abc");
    assert_eq!(chunks, vec!["\"abc"]);
}

#[test]
fn tokens_for_keywords_and_symbols() {
    let tokens = tokenizer(chunker(
        "bussin based sigma ( ) { } ; , ghost mewing ong nah sixSeven ohio flex yeet slay",
    ));
    assert_eq!(
        tokens,
        vec![
            Token::Bussin,
            Token::Based,
            Token::Sigma,
            Token::OpenParen,
            Token::CloseParen,
            Token::OpenBrace,
            Token::CloseBrace,
            Token::Semicolon,
            Token::Comma,
            Token::Void,
            Token::Mewing,
            Token::Ong,
            Token::Nah,
            Token::SixSeven,
            Token::Ohio,
            Token::Flex,
            Token::Yeet,
            Token::Slay,
        ]
    );
}

#[test]
fn tokens_for_numbers() {
    let tokens = tokenizer(vec!["42".to_string(), "-7".to_string(), "3.14".to_string()]);
    assert_eq!(
        tokens,
        vec![
            Token::IntLit(42),
            Token::IntLit(-7),
            Token::FloatLit("3.14".to_string()),
        ]
    );
}

#[test]
fn malformed_float_is_unknown() {
    let tokens = tokenizer(vec!["1.2.3".to_string(), ".".to_string(), "1.x".to_string()]);
    assert_eq!(
        tokens,
        vec![
            Token::Unknown("1.2.3".to_string()),
            Token::Unknown(".".to_string()),
            Token::Unknown("1.x".to_string()),
        ]
    );
}

#[test]
fn oversized_integer_is_unknown() {
    let tokens = tokenizer(vec!["99999999999999999999999".to_string()]);
    assert_eq!(tokens, vec![Token::Unknown("99999999999999999999999".to_string())]);
}

#[test]
fn string_literal_token_strips_quotes() {
    let tokens = tokenizer(vec!["\"hi\"".to_string(), "\"\"".to_string()]);
    assert_eq!(
        tokens,
        vec![
            Token::StringLit("hi".to_string()),
            Token::StringLit("".to_string()),
        ]
    );
}

#[test]
fn char_literal_tokens_resolve_escapes() {
    let tokens = tokenizer(vec![
        "'a'".to_string(),
        "'\\n'".to_string(),
        "'\\t'".to_string(),
        "'\\0'".to_string(),
        "'\\\\'".to_string(),
        "'\\q'".to_string(),
        "'ab'".to_string(),
    ]);
    assert_eq!(
        tokens,
        vec![
            Token::CharLit('a'),
            Token::CharLit('\n'),
            Token::CharLit('\t'),
            Token::CharLit('\0'),
            Token::CharLit('\\'),
            Token::Unknown("'\\q'".to_string()),
            Token::Unknown("'ab'".to_string()),
        ]
    );
}

#[test]
fn identifier_rules() {
    assert!(is_valid_identifier("abc"));
    assert!(is_valid_identifier("_x1"));
    assert!(is_valid_identifier("Ab_c9"));
    assert!(!is_valid_identifier(""));
    assert!(!is_valid_identifier("9x"));
    assert!(!is_valid_identifier("a-b"));
}

#[test]
fn unknown_fragment_keeps_text() {
    let tokens = tokenizer(vec!["@@".to_string()]);
    assert_eq!(tokens, vec![Token::Unknown("@@".to_string())]);
}

#[test]
fn empty_fragments_are_skipped() {
    let tokens = tokenizer(vec!["".to_string(), "based".to_string(), "".to_string()]);
    assert_eq!(tokens, vec![Token::Based]);
}

#[test]
fn tokenizing_twice_is_identical() {
    let src = "bussin based sigma() { based x slay 1 + 2; flex \"hi\"; yeet x; }";
    let t1 = tokenizer(chunker(src));
    let t2 = tokenizer(chunker(src));
    assert_eq!(t1, t2);
}

#[test]
fn unterminated_string_fragment_is_unknown() {
    let tokens = tokenizer(chunker("\"abc"));
    assert_eq!(tokens, vec![Token::Unknown("\"abc".to_string())]);
}
