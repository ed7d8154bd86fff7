use cli::env::Env;
use cli::lexer::Lexer;
use cli::token::Token;

#[test]
fn test_lexer_simple() {
    let line = b"    awda75 awdwe llllplk  ".to_vec();
    let env = Env::new();
    let lexer = Lexer::new(&env);

    let (actual, mut lexer) = lexer.next(true);
    assert_eq!(actual, Some(Token::Eps));
    lexer.feed(line);

    let (actual, lexer) = lexer.next(true);
    assert_eq!(
        actual,
        Some(Token::Path { src: b"awda75".to_vec(), is_lvalue: false, sub: None })
    );

    let (actual, lexer) = lexer.next(true);
    assert_eq!(
        actual,
        Some(Token::Path { src: b"awdwe".to_vec(), is_lvalue: true, sub: None })
    );

    let (actual, lexer) = lexer.next(true);
    assert_eq!(
        actual,
        Some(Token::Path { src: b"llllplk".to_vec(), is_lvalue: true, sub: None })
    );

    let (actual, _) = lexer.next(true);
    assert_eq!(actual, Some(Token::Eps));
}

#[test]
fn test_lexer_expect_next() {
    let mut line = b"    awda75 \"wdwdw  ".to_vec();
    let env = Env::new();
    let lexer = Lexer::new(&env);

    let (actual, mut lexer) = lexer.next(true);
    assert_eq!(actual, Some(Token::Eps));
    lexer.feed(line);

    let (actual, lexer) = lexer.next(true);
    assert_eq!(
        actual,
        Some(Token::Path { src: b"awda75".to_vec(), is_lvalue: false, sub: None })
    );
    let (actual, lexer) = lexer.next(true);
    assert_eq!(actual, None);
    let (actual, mut lexer) = lexer.next(true);
    assert_eq!(actual, None);

    line = b" awdwd\"".to_vec();
    lexer.feed(line);
    let (actual, lexer) = lexer.next(true);
    assert_eq!(
        actual,
        Some(Token::Path { src: b"wdwdw   awdwd".to_vec(), is_lvalue: false, sub: None })
    );
    let (actual, mut lexer) = lexer.next(true);
    assert_eq!(actual, Some(Token::Eps));

    line = b" \'wdwdw  ".to_vec();
    lexer.feed(line);
    let (actual, mut lexer) = lexer.next(true);
    assert_eq!(actual, None);

    line = b" awdwd\'".to_vec();
    lexer.feed(line);
    let (actual, lexer) = lexer.next(true);
    assert_eq!(
        actual,
        Some(Token::Path { src: b"wdwdw   awdwd".to_vec(), is_lvalue: false, sub: None })
    );
    let (actual, _) = lexer.next(true);
    assert_eq!(actual, Some(Token::Eps));
}

/// Collect every token of one chunk, up to and including the end-of-statement
/// marker; `None` if the lexer asks for more input first.
fn tokens_of_chunk(lexer: Lexer<'_>, chunk: Vec<u8>) -> (Option<Vec<Token>>, Lexer<'_>) {
    let mut lexer = lexer;
    lexer.feed(chunk);
    let mut tokens = Vec::new();
    loop {
        let (tok, next_lexer) = lexer.next(true);
        lexer = next_lexer;
        match tok {
            None => return (None, lexer),
            Some(Token::Eps) => {
                tokens.push(Token::Eps);
                return (Some(tokens), lexer);
            }
            Some(t) => tokens.push(t),
        }
    }
}

#[test]
fn chunk_boundary_invariance_on_open_quote() {
    let env = Env::new();

    // One call over the concatenation.
    let whole = b"ec 'a |b' x".to_vec();
    let (all_at_once, _) = tokens_of_chunk(Lexer::new(&env), whole);
    let all_at_once = all_at_once.expect("complete statement");

    // The same bytes split inside the quote: the first chunk asks for more.
    let (first, lexer) = tokens_of_chunk(Lexer::new(&env), b"ec 'a |".to_vec());
    assert!(first.is_none());
    let (rest, _) = tokens_of_chunk(lexer, b"b' x".to_vec());
    let rest = rest.expect("complete statement");

    // The first chunk produced the tokens before the quote, the second the
    // rest; together they equal the one-call sequence.
    let mut incremental = vec![Token::Path { src: b"ec".to_vec(), is_lvalue: true, sub: None }];
    incremental.extend(rest);
    assert_eq!(all_at_once, incremental);
}

#[test]
fn unmatched_quote_resumes_with_full_literal() {
    let env = Env::new();
    let mut lexer = Lexer::new(&env);
    lexer.feed(b"'hello wo".to_vec());
    let (tok, mut lexer) = lexer.next(true);
    assert_eq!(tok, None);
    lexer.feed(b"rld' ".to_vec());
    let (tok, _) = lexer.next(true);
    assert_eq!(
        tok,
        Some(Token::Path { src: b"hello world".to_vec(), is_lvalue: false, sub: None })
    );
}

#[test]
fn empty_quotes_yield_empty_argument() {
    let env = Env::new();
    let mut lexer = Lexer::new(&env);
    lexer.feed(b"\"\" ".to_vec());
    let (tok, _) = lexer.next(true);
    assert_eq!(tok, Some(Token::Path { src: Vec::new(), is_lvalue: false, sub: None }));
}

#[test]
fn substitution_resolves_against_environment() {
    let mut env = Env::new();
    env.set(b"x".to_vec(), b"hi".to_vec());
    let mut lexer = Lexer::new(&env);
    lexer.feed(b"$x".to_vec());
    let (tok, _) = lexer.next(true);
    assert_eq!(tok, Some(Token::Path { src: b"hi".to_vec(), is_lvalue: false, sub: None }));
}

#[test]
fn substitution_concatenates_with_adjacent_text() {
    let mut env = Env::new();
    env.set(b"x".to_vec(), b"hi".to_vec());
    let mut lexer = Lexer::new(&env);
    // `.` ends the variable name, so the word is `a`, the value of `x`, `.b`.
    lexer.feed(b"a$x.b".to_vec());
    let (tok, _) = lexer.next(true);
    assert_eq!(tok, Some(Token::Path { src: b"ahi.b".to_vec(), is_lvalue: false, sub: None }));
}

#[test]
fn substitution_name_runs_to_first_non_letter() {
    let mut env = Env::new();
    env.set(b"x".to_vec(), b"hi".to_vec());
    let mut lexer = Lexer::new(&env);
    // `b` is a letter, so the variable read is `xb`, which is unset.
    lexer.feed(b"a$xb".to_vec());
    let (tok, _) = lexer.next(true);
    assert_eq!(tok, Some(Token::Path { src: b"a".to_vec(), is_lvalue: false, sub: None }));
}

#[test]
fn escape_takes_next_byte_verbatim() {
    let env = Env::new();
    let mut lexer = Lexer::new(&env);
    lexer.feed(b"a\\ b".to_vec());
    let (tok, _) = lexer.next(true);
    assert_eq!(tok, Some(Token::Path { src: b"a b".to_vec(), is_lvalue: false, sub: None }));
}

#[test]
fn no_substitution_inside_quotes() {
    let mut env = Env::new();
    env.set(b"x".to_vec(), b"hi".to_vec());
    let mut lexer = Lexer::new(&env);
    lexer.feed(b"'$x' ".to_vec());
    let (tok, _) = lexer.next(true);
    assert_eq!(tok, Some(Token::Path { src: b"$x".to_vec(), is_lvalue: false, sub: None }));
}

#[test]
fn pipe_after_word_is_deferred() {
    let env = Env::new();
    let mut lexer = Lexer::new(&env);
    lexer.feed(b"a|b".to_vec());
    let (tok, lexer) = lexer.next(true);
    assert_eq!(tok, Some(Token::Path { src: b"a".to_vec(), is_lvalue: true, sub: None }));
    let (tok, lexer) = lexer.next(true);
    assert_eq!(tok, Some(Token::Pipe));
    let (tok, _) = lexer.next(true);
    assert_eq!(tok, Some(Token::Path { src: b"b".to_vec(), is_lvalue: true, sub: None }));
}

#[test]
fn assignment_token_forms_outside_argument_position() {
    let env = Env::new();
    let mut lexer = Lexer::new(&env);
    lexer.feed(b"a=1".to_vec());
    let (tok, _) = lexer.next(false);
    assert_eq!(
        tok,
        Some(Token::SetCmd { lvalue: b"a".to_vec(), rvalue: b"1".to_vec(), sub: None })
    );

    // With a bare word expected, `=` stays part of the word.
    let mut lexer = Lexer::new(&env);
    lexer.feed(b"a=1".to_vec());
    let (tok, _) = lexer.next(true);
    assert_eq!(tok, Some(Token::Path { src: b"a=1".to_vec(), is_lvalue: false, sub: None }));
}

#[test]
fn adjacent_substitutions_concatenate() {
    let mut env = Env::new();
    env.set(b"a".to_vec(), b"ex".to_vec());
    env.set(b"b".to_vec(), b"it".to_vec());
    let mut lexer = Lexer::new(&env);
    lexer.feed(b"$a$b".to_vec());
    let (tok, _) = lexer.next(true);
    assert_eq!(tok, Some(Token::Path { src: b"exit".to_vec(), is_lvalue: false, sub: None }));
}

#[test]
fn assignment_right_side_substitutes_inline() {
    let mut env = Env::new();
    env.set(b"y".to_vec(), b"val".to_vec());
    let mut lexer = Lexer::new(&env);
    lexer.feed(b"x=$y".to_vec());
    let (tok, _) = lexer.next(false);
    assert_eq!(
        tok,
        Some(Token::SetCmd { lvalue: b"x".to_vec(), rvalue: b"val".to_vec(), sub: None })
    );

    // The substituted value concatenates with adjacent literal text.
    let mut lexer = Lexer::new(&env);
    lexer.feed(b"x=a$y.b".to_vec());
    let (tok, _) = lexer.next(false);
    assert_eq!(
        tok,
        Some(Token::SetCmd { lvalue: b"x".to_vec(), rvalue: b"aval.b".to_vec(), sub: None })
    );
}

#[test]
fn quoted_assignment_right_side_stays_literal() {
    let mut env = Env::new();
    env.set(b"y".to_vec(), b"val".to_vec());
    let mut lexer = Lexer::new(&env);
    lexer.feed(b"x='$y'".to_vec());
    let (tok, _) = lexer.next(false);
    assert_eq!(
        tok,
        Some(Token::SetCmd { lvalue: b"x".to_vec(), rvalue: b"$y".to_vec(), sub: None })
    );
}
