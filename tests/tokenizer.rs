use cljindent::{Token, TokenType, Tokenizer};

fn onetok<'a>(s: &'a str) -> Option<Token<'a>> {
    let mut tokenizer: Tokenizer<'a> = Tokenizer::from(s);
    let token: Option<Token<'a>> = tokenizer.next();
    token
}

fn kw(s: &str) -> Option<Token> {
    Some(Token::new(s, TokenType::Keyword))
}

fn sym(s: &str) -> Option<Token> {
    Some(Token::new(s, TokenType::Symbol))
}

fn cljstr(s: &str) -> Option<Token> {
    Some(Token::new(s, TokenType::String))
}

fn err(s: &str) -> Option<Token> {
    Some(Token::new(s, TokenType::Error))
}

fn chr(s: &str) -> Option<Token> {
    Some(Token::new(s, TokenType::Character))
}

fn all_tokens(s: &str) -> Vec<(String, TokenType)> {
    let mut tokenizer = Tokenizer::from(s);
    let mut out = Vec::new();
    while let Some(t) = tokenizer.next() {
        out.push((t.value().to_string(), t.kind()));
    }
    out
}

#[test]
fn keywords() {
    assert_eq!(onetok(":abcd :abcd"), kw(":abcd"));
    assert_eq!(onetok("::abcd :abcd"), kw("::abcd"));
    assert_eq!(onetok(":ab/cd :abcd"), kw(":ab/cd"));
    assert_eq!(onetok(":a.b/cd :abcd"), kw(":a.b/cd"));
}

#[test]
fn symbols() {
    assert_eq!(onetok("abcd :abcd"), sym("abcd"));
    assert_eq!(onetok("ab/cd :abcd"), sym("ab/cd"));
    assert_eq!(onetok("a.b/cd :abcd"), sym("a.b/cd"));
}

#[test]
fn strings() {
    assert_eq!(onetok(r#""abc" :abcd"#), cljstr(r#""abc""#));
    assert_eq!(onetok(r#""abc" :abcd"#), cljstr(r#""abc""#));
    assert_eq!(onetok(r#""a\nbc" :abcd"#), cljstr(r#""a\nbc""#));
    assert_eq!(onetok(r#""a\nb\"c" :abcd"#), cljstr(r#""a\nb\"c""#));
    assert_eq!(onetok(r#""abc"#), err(r#""abc"#));
}

#[test]
fn characters() {
    assert_eq!(onetok(r#"\hello" :abcd"#), chr(r#"\hello"#));
    assert_eq!(onetok(r#"\" :abcd"#), chr(r#"\""#));
    assert_eq!(onetok(r#"\"#), err(r#"\"#))
}

#[test]
fn empty_input_has_no_token() {
    assert_eq!(onetok(""), None);
}

#[test]
fn colon_without_word_is_error() {
    assert_eq!(onetok(":"), err(":"));
    assert_eq!(onetok(": x"), err(": "));
    assert_eq!(onetok(":(a)"), err(":("));
}

#[test]
fn unquote_forms() {
    assert_eq!(onetok("~@xs"), Some(Token::new("~@", TokenType::UnquoteSplicing)));
    assert_eq!(onetok("~x"), Some(Token::new("~", TokenType::Unquote)));
    assert_eq!(onetok("~"), Some(Token::new("~", TokenType::Unquote)));
}

#[test]
fn comments_and_their_end() {
    assert_eq!(onetok("; note\nx"), Some(Token::new("; note\n", TokenType::Comment)));
    assert_eq!(onetok("; note"), chr("; note"));
}

#[test]
fn whitespace_runs() {
    assert_eq!(onetok(" ,\t\nx"), Some(Token::new(" ,\t\n", TokenType::Whitespace)));
    assert_eq!(onetok("  "), chr("  "));
    // A no-break space is not whitespace.
    assert_eq!(onetok("\u{a0}x y"), sym("\u{a0}x"));
}

#[test]
fn single_character_tokens() {
    let kinds: Vec<TokenType> = all_tokens("([{}])`^@#'").into_iter().map(|t| t.1).collect();
    assert_eq!(
        kinds,
        vec![
            TokenType::LParen,
            TokenType::LBracket,
            TokenType::LBrace,
            TokenType::RBrace,
            TokenType::RBracket,
            TokenType::RParen,
            TokenType::SynQuote,
            TokenType::Metadata,
            TokenType::Deref,
            TokenType::Dispatch,
            TokenType::Quote,
        ]
    );
}

#[test]
fn word_chars_after_structural_escape() {
    assert_eq!(onetok("\\(( x"), chr("\\("));
    assert_eq!(onetok("a#b'c:d(e"), sym("a#b'c:d"));
}

#[test]
fn tokens_join_back_to_input() {
    let inputs = [
        "",
        "(defn f [x] ; c\n  (+ x 1))",
        "\"unterminated",
        "\\",
        "#{1 2} ^:meta x ~@xs @a `(b ~c)",
        ": oops ,, \u{2028} é",
    ];
    for s in inputs.iter() {
        let joined: String = all_tokens(s).into_iter().map(|t| t.0).collect();
        assert_eq!(&joined, s);
    }
}

#[test]
fn token_accessors() {
    let t = Token::new("(", TokenType::LParen);
    assert!(t.is_left());
    assert!(!t.is_right());
    let t = Token::new("}", TokenType::RBrace);
    assert!(t.is_right());
    assert!(!t.is_left());
    assert_eq!(t.value(), "}");
    assert_eq!(t.kind(), TokenType::RBrace);
}
