use spoke::generator::SuiteGenerator;
use spoke::parse::rules::{CurrentRule, TransientAnchor};
use spoke::parse::scope::{AnchorParent, Suite};
use spoke::span::Span;
use spoke::token::{Delimiter, Token};

trait SurroundingString {
    fn surround(input: &str) -> String;
}

trait TokenMatcher {
    fn matches(self, expected: Expected);
    fn matches_inside<T: SurroundingString>(self, expected: Expected);
}

impl TokenMatcher for proc_macro2::TokenStream {
    fn matches(self, expected: Expected) {
        matches_stream(self, expected);
    }
    fn matches_inside<T: SurroundingString>(self, expected: Expected) {
        matches_stream(self, Expected(T::surround(expected.0).as_str()));
    }
}

struct Input<'a>(&'a str);
impl<'a> Input<'a> {
    fn stream(&self) -> proc_macro2::TokenStream {
        self.0
            .parse::<proc_macro2::TokenStream>()
            .expect("the input string represents a valid input stream of tokens")
    }
}

struct Expected<'a>(&'a str);
impl<'a> Expected<'a> {
    fn stream(&self) -> proc_macro2::TokenStream {
        self.0
            .parse::<proc_macro2::TokenStream>()
            .expect("the expected output to be valid rust")
    }
}

fn matches_stream(result: proc_macro2::TokenStream, expected: Expected) {
    assert_eq!(expected.stream().to_string(), result.to_string());
}

/// The tokens of the library for the tokens of the host.
fn to_tokens(stream: proc_macro2::TokenStream) -> Vec<Token> {
    let mut tokens = Vec::new();
    for tree in stream {
        match tree {
            proc_macro2::TokenTree::Ident(id) => tokens.push(Token::Ident {
                text: id.to_string(),
                span: Span::call_site(),
            }),
            proc_macro2::TokenTree::Punct(p) => tokens.push(Token::Punct {
                ch: p.as_char(),
                joint: p.spacing() == proc_macro2::Spacing::Joint,
                span: Span::call_site(),
            }),
            proc_macro2::TokenTree::Literal(lit) => tokens.push(Token::Literal {
                text: lit.to_string(),
                span: Span::call_site(),
            }),
            proc_macro2::TokenTree::Group(g) => {
                let inner = to_tokens(g.stream());
                let delimiter = match g.delimiter() {
                    proc_macro2::Delimiter::Parenthesis => Some(Delimiter::Parenthesis),
                    proc_macro2::Delimiter::Brace => Some(Delimiter::Brace),
                    proc_macro2::Delimiter::Bracket => Some(Delimiter::Bracket),
                    proc_macro2::Delimiter::None => None,
                };
                match delimiter {
                    Some(delimiter) => tokens.push(Token::Group {
                        delimiter,
                        stream: inner,
                        span: Span::call_site(),
                    }),
                    None => tokens.extend(inner),
                }
            }
        }
    }
    tokens
}

/// The tokens of the host for the tokens of the library.
fn from_tokens(tokens: &[Token]) -> proc_macro2::TokenStream {
    let mut stream = proc_macro2::TokenStream::new();
    for token in tokens {
        let tree = match token {
            Token::Ident { text, .. } => proc_macro2::TokenTree::Ident(proc_macro2::Ident::new(
                text,
                proc_macro2::Span::call_site(),
            )),
            Token::Punct { ch, joint, .. } => {
                let spacing = if *joint {
                    proc_macro2::Spacing::Joint
                } else {
                    proc_macro2::Spacing::Alone
                };
                proc_macro2::TokenTree::Punct(proc_macro2::Punct::new(*ch, spacing))
            }
            Token::Literal { text, .. } => proc_macro2::TokenTree::Literal(
                text.parse::<proc_macro2::Literal>()
                    .expect("a literal of the input is a literal"),
            ),
            Token::Str { value, .. } => {
                proc_macro2::TokenTree::Literal(proc_macro2::Literal::string(value))
            }
            Token::Group { delimiter, stream, .. } => {
                let delimiter = match delimiter {
                    Delimiter::Parenthesis => proc_macro2::Delimiter::Parenthesis,
                    Delimiter::Brace => proc_macro2::Delimiter::Brace,
                    Delimiter::Bracket => proc_macro2::Delimiter::Bracket,
                };
                proc_macro2::TokenTree::Group(proc_macro2::Group::new(
                    delimiter,
                    from_tokens(stream),
                ))
            }
        };
        stream.extend([tree]);
    }
    stream
}

/// Reads the tokens as what follows an anchor at the top of the input, and
/// writes out what was collected, without the module around it.
fn parse_valid(input: Input) -> proc_macro2::TokenStream {
    let mut output = SuiteGenerator::new();
    let mut rule = CurrentRule::Anchor(TransientAnchor::new(
        AnchorParent::from_suite(Suite::new()),
        &Span::call_site(),
    ));
    for token in to_tokens(input.stream()) {
        rule = rule.accept_token(token, &mut output);
    }
    rule.end_of_stream(&mut output);
    from_tokens(&output.generate_suite())
}

#[test]
fn test_signature_generation_fails_if_generated_with_no_tokens() {
    parse_valid(Input("")).matches(Expected(
        r##"
            compile_error!("reached end of input before reaching the end of the test definition");
        "##,
    ));
}

#[test]
fn test_signature_generation_fails_if_generated_with_no_body_and_no_assert() {
    parse_valid(Input(
        r##"
            "test"
        "##,
    ))
    .matches(Expected(
        r##"
            compile_error!("reached end of input before finding the test body for named test");
        "##,
    ));
}

#[test]
fn can_parse_simple_test_signature_and_generate_a_simple_test() {
    parse_valid(Input(
        r##"
            "test"{}
        "##,
    ))
    .matches(Expected(
        r##"
            #[test] 
            fn test() {}
        "##,
    ));
}

#[test]
fn can_parse_test_with_included_code() {
    parse_valid(Input(
        r##"
            "test"{
                let x = 5;
                let y = 5;
                assert_eq!(x,y);
            }
        "##,
    ))
    .matches(Expected(
        r##"
            #[test] 
            fn test() {
                let x = 5;
                let y = 5;
                assert_eq!(x,y);
            }
        "##,
    ));
}
