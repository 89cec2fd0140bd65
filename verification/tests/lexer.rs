use tinyvm_qjs::diag::Boundary;
use tinyvm_qjs::lex::stream::{semicolon_is_implied, tokenize};
use tinyvm_qjs::lex::{Token, TokenKind, Unlowered};

fn kinds(source: &str) -> Vec<TokenKind> {
    tokenize(source).unwrap().into_iter().map(|t| t.kind).collect()
}

fn refused(boundary: Boundary, phrase: &str) -> TokenKind {
    TokenKind::Unsupported(Unlowered { boundary, phrase: phrase.to_string() })
}

fn error(source: &str) -> (String, usize, Boundary) {
    let e = tokenize(source).unwrap_err();
    (e.message, e.offset, e.boundary)
}

#[test]
fn empty_source_is_one_eof() {
    let tokens = tokenize("").unwrap();
    assert_eq!(tokens.len(), 1);
    assert_eq!(tokens[0].kind, TokenKind::Eof);
    assert_eq!(tokens[0].offset, 0);
    assert!(!tokens[0].newline_before);
}

#[test]
fn an_expression_lexes_with_byte_offsets() {
    let tokens = tokenize("1 + $0 * g").unwrap();
    let got: Vec<(TokenKind, usize)> = tokens.into_iter().map(|t| (t.kind, t.offset)).collect();
    assert_eq!(
        got,
        vec![
            (TokenKind::Int(1), 0),
            (TokenKind::Plus, 2),
            (TokenKind::Arg(0), 4),
            (TokenKind::Star, 7),
            (TokenKind::Ident("g".to_string()), 9),
            (TokenKind::Eof, 10),
        ]
    );
}

#[test]
fn offsets_count_bytes_not_characters() {
    let tokens = tokenize("\u{a0}é 1").unwrap();
    assert_eq!(tokens[0].kind, refused(Boundary::Subset, "the character `é`"));
    assert_eq!(tokens[0].offset, 2);
    assert_eq!(tokens[1].kind, TokenKind::Int(1));
    assert_eq!(tokens[1].offset, 5);
    assert_eq!(tokens[2].offset, 6);
}

#[test]
fn keywords_reserved_words_and_names() {
    assert_eq!(
        kinds("function return typeof undefined eval class foo_$1"),
        vec![
            TokenKind::Function,
            TokenKind::Return,
            TokenKind::Typeof,
            TokenKind::Undefined,
            refused(Boundary::FullJs, "the `eval` function"),
            refused(Boundary::FullJs, "the `class` keyword"),
            TokenKind::Ident("foo_$1".to_string()),
            TokenKind::Eof,
        ]
    );
}

#[test]
fn numbers_in_every_form() {
    assert_eq!(
        kinds("0x1F 0o7 0b1 0777 12n 1_000 1.5 .5 2e10 1e+3 18446744073709551616 18446744073709551615"),
        vec![
            refused(Boundary::Subset, "hexadecimal number literals"),
            refused(Boundary::Subset, "octal number literals"),
            refused(Boundary::Subset, "binary number literals"),
            refused(Boundary::Subset, "number literals written with a leading zero"),
            refused(Boundary::Subset, "BigInt literals"),
            refused(Boundary::Subset, "numeric separators in number literals"),
            TokenKind::Num("1.5".to_string()),
            TokenKind::Num(".5".to_string()),
            TokenKind::Num("2e10".to_string()),
            TokenKind::Num("1e+3".to_string()),
            TokenKind::Num("18446744073709551616".to_string()),
            TokenKind::Int(18446744073709551615),
            TokenKind::Eof,
        ]
    );
}

#[test]
fn a_number_glued_to_a_name_is_refused() {
    let (message, offset, boundary) = error("x = 1einvalid");
    assert_eq!(
        message,
        "this engine needs a separator between this number and the name after it; ECMA-262 12.9.3 ends a numeric literal before any identifier character"
    );
    assert_eq!(offset, 4);
    assert_eq!(boundary, Boundary::Subset);
}

#[test]
fn an_argument_index_past_u64_names_the_limit() {
    assert_eq!(
        kinds("$99999999999999999999"),
        vec![refused(Boundary::Subset, "more than 64 call arguments"), TokenKind::Eof]
    );
}

#[test]
fn string_escapes_decode() {
    assert_eq!(
        kinds(r#"'a\nb' "\x41\u0042\u{1F600}" '\uD83D\uDE00' 'x\
y' '\q\0'"#),
        vec![
            TokenKind::Str("a\nb".to_string()),
            TokenKind::Str("AB\u{1F600}".to_string()),
            TokenKind::Str("\u{1F600}".to_string()),
            TokenKind::Str("xy".to_string()),
            TokenKind::Str("q\0".to_string()),
            TokenKind::Eof,
        ]
    );
}

#[test]
fn unrepresentable_escapes_refuse_the_whole_literal() {
    assert_eq!(
        kinds(r"'\uD800' '\01' '\uDC00x' 1"),
        vec![
            refused(Boundary::Subset, "unpaired surrogates in string literals"),
            refused(Boundary::Subset, "legacy octal escapes in string literals"),
            refused(Boundary::Subset, "unpaired surrogates in string literals"),
            TokenKind::Int(1),
            TokenKind::Eof,
        ]
    );
}

#[test]
fn malformed_escapes_fail() {
    assert_eq!(
        error(r"'ab\xZ'"),
        (
            "this engine needs 2 hexadecimal digits after the `\\x` escape at byte 3".to_string(),
            3,
            Boundary::Subset
        )
    );
    assert_eq!(
        error(r"'\u12'"),
        ("this engine needs 4 hexadecimal digits after the `\\u` escape at byte 1".to_string(), 1, Boundary::Subset)
    );
    assert_eq!(
        error(r"'\u{}'"),
        (
            "this engine needs hexadecimal digits and a `}` to close the `\\u{` escape at byte 1".to_string(),
            1,
            Boundary::Subset
        )
    );
    assert_eq!(
        error(r"'\u{110000}'"),
        (
            "this engine needs a code point of at most U+10FFFF in the `\\u{}` escape at byte 1".to_string(),
            1,
            Boundary::Subset
        )
    );
}

#[test]
fn unclosed_strings_and_comments_fail() {
    assert_eq!(
        error("x 'abc"),
        (
            "this engine needs a `'` to close the string opened at byte 2; the source ends first".to_string(),
            2,
            Boundary::Subset
        )
    );
    assert_eq!(
        error("\"ab\ncd\""),
        (
            "this engine needs a `\"` to close the string opened at byte 0; the line ends first".to_string(),
            0,
            Boundary::Subset
        )
    );
    assert_eq!(
        error("1 /* never"),
        (
            "this engine needs a `*/` to close the comment opened at byte 2; the source ends first".to_string(),
            2,
            Boundary::Subset
        )
    );
}

#[test]
fn templates_are_consumed_whole() {
    assert_eq!(
        kinds("`t${x}\\`` + 1"),
        vec![refused(Boundary::Subset, "template literals"), TokenKind::Plus, TokenKind::Int(1), TokenKind::Eof]
    );
}

#[test]
fn punctuation_reads_the_longest_form() {
    assert_eq!(
        kinds(">>>= === !== >>> <<= **= &&= ... ** => << ?? ?. & ~ ? :"),
        vec![
            refused(Boundary::Subset, "assignment"),
            TokenKind::EqEqEq,
            TokenKind::BangEqEq,
            refused(Boundary::Subset, "bitwise operators"),
            refused(Boundary::Subset, "assignment"),
            refused(Boundary::Subset, "assignment"),
            refused(Boundary::Subset, "logical assignment"),
            refused(Boundary::ThirdBinding, "the spread and rest syntax"),
            refused(Boundary::Subset, "exponentiation"),
            refused(Boundary::FullJs, "arrow functions"),
            refused(Boundary::Subset, "bitwise operators"),
            refused(Boundary::Subset, "the nullish coalescing operator"),
            refused(Boundary::Subset, "optional chaining"),
            refused(Boundary::Subset, "bitwise operators"),
            refused(Boundary::Subset, "bitwise operators"),
            TokenKind::Question,
            TokenKind::Colon,
            TokenKind::Eof,
        ]
    );
}

#[test]
fn comments_and_line_terminators_set_newline_before() {
    let tokens = tokenize("a // c\nb /* \u{2028} */ c /* x */ d").unwrap();
    let flags: Vec<bool> = tokens.iter().map(|t| t.newline_before).collect();
    assert_eq!(flags, vec![false, true, true, false, false]);
}

#[test]
fn return_on_its_own_line_gets_a_semicolon() {
    let tokens = tokenize("return\nx").unwrap();
    let got: Vec<(TokenKind, usize, bool)> =
        tokens.into_iter().map(|t| (t.kind, t.offset, t.inserted)).collect();
    assert_eq!(
        got,
        vec![
            (TokenKind::Return, 0, false),
            (TokenKind::Semi, 7, true),
            (TokenKind::Ident("x".to_string()), 7, false),
            (TokenKind::Eof, 8, false),
        ]
    );
}

#[test]
fn a_block_comment_with_a_line_break_counts_as_one() {
    assert_eq!(
        kinds("return /*\n*/ x"),
        vec![TokenKind::Return, TokenKind::Semi, TokenKind::Ident("x".to_string()), TokenKind::Eof]
    );
}

#[test]
fn postfix_update_across_a_line_break_becomes_prefix() {
    assert_eq!(
        kinds("a\n++b"),
        vec![
            TokenKind::Ident("a".to_string()),
            TokenKind::Semi,
            TokenKind::PlusPlus,
            TokenKind::Ident("b".to_string()),
            TokenKind::Eof,
        ]
    );
    assert_eq!(
        kinds("}\n++b"),
        vec![TokenKind::RBrace, TokenKind::PlusPlus, TokenKind::Ident("b".to_string()), TokenKind::Eof]
    );
}

#[test]
fn no_semicolon_without_a_line_break_or_after_a_written_one() {
    assert_eq!(
        kinds("throw x; return\n;"),
        vec![
            TokenKind::Throw,
            TokenKind::Ident("x".to_string()),
            TokenKind::Semi,
            TokenKind::Return,
            TokenKind::Semi,
            TokenKind::Eof,
        ]
    );
    let tokens = tokenize("return\n;").unwrap();
    assert!(tokens.iter().all(|t: &Token| !t.inserted));
}

#[test]
fn a_call_on_a_new_line_is_not_split() {
    assert_eq!(
        kinds("a\n(b)"),
        vec![
            TokenKind::Ident("a".to_string()),
            TokenKind::LParen,
            TokenKind::Ident("b".to_string()),
            TokenKind::RParen,
            TokenKind::Eof,
        ]
    );
}

#[test]
fn semicolon_is_implied_by_rules_one_and_two() {
    let tokens = tokenize("a b\nc }").unwrap();
    assert!(!semicolon_is_implied(&tokens, 1));
    assert!(semicolon_is_implied(&tokens, 2));
    assert!(semicolon_is_implied(&tokens, 3));
    assert!(semicolon_is_implied(&tokens, 4));
}

#[test]
fn token_names() {
    assert_eq!(TokenKind::Int(3).name(), "a number");
    assert_eq!(TokenKind::Num("1.5".to_string()).name(), "a number");
    assert_eq!(TokenKind::Typeof.name(), "the `typeof` operator");
    assert_eq!(TokenKind::PipePipe.name(), "a `||`");
    assert_eq!(refused(Boundary::Subset, "x").name(), "an unsupported construct");
    assert_eq!(TokenKind::Eof.name(), "the end of the source");
}

#[test]
fn capability_phrases() {
    let cap = |k: TokenKind| k.capability().map(|u| (u.boundary, u.phrase));
    assert_eq!(cap(TokenKind::LBrace), Some((Boundary::ThirdBinding, "block statements".to_string())));
    assert_eq!(cap(TokenKind::GtEq), Some((Boundary::Subset, "comparison operators".to_string())));
    assert_eq!(cap(TokenKind::PercentEq), Some((Boundary::Subset, "assignment".to_string())));
    assert_eq!(cap(TokenKind::Colon), Some((Boundary::FullJs, "labelled statements".to_string())));
    assert_eq!(cap(TokenKind::Str("s".to_string())), Some((Boundary::Subset, "string literals".to_string())));
    assert_eq!(cap(TokenKind::Throw), Some((Boundary::FullJs, "the `throw` keyword".to_string())));
    assert_eq!(cap(TokenKind::Ident("x".to_string())), None);
    assert_eq!(cap(TokenKind::Plus), None);
    assert_eq!(cap(TokenKind::Eof), None);
}

#[test]
fn tokens_end_once_and_never_step_back() {
    let source = "let x = 'é'\nreturn\nx++ /* c */ $1";
    let tokens = tokenize(source).unwrap();
    assert_eq!(tokens.last().unwrap().kind, TokenKind::Eof);
    assert_eq!(tokens.last().unwrap().offset, source.len());
    assert_eq!(tokens.iter().filter(|t| t.kind == TokenKind::Eof).count(), 1);
    assert!(tokens.windows(2).all(|w| w[0].offset <= w[1].offset));
    assert!(tokens.iter().all(|t| !t.inserted || t.kind == TokenKind::Semi));
    assert_eq!(tokens.iter().filter(|t| t.inserted).count(), 1);
}

#[test]
fn postfix_update_after_a_fractional_literal_across_a_line_break() {
    assert_eq!(
        kinds("1.5\n++x"),
        vec![
            TokenKind::Num("1.5".to_string()),
            TokenKind::Semi,
            TokenKind::PlusPlus,
            TokenKind::Ident("x".to_string()),
            TokenKind::Eof,
        ]
    );
    let tokens = tokenize("1.5\n++x").unwrap();
    assert!(tokens[1].inserted);
    assert_eq!(tokens[1].offset, 4);
}
