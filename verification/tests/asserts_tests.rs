use spoke::generator::SuiteGenerator;
use spoke::name::Name;
use spoke::parse::scope::{Body, Suite};
use spoke::span::Span;
use spoke::token::{Delimiter, Token};

trait SurroundingString {
    fn surround(input: &str) -> String;
}

trait TokenMatcher {
    fn matches(self, expected: Expected);
    fn matches_inside<T: SurroundingString>(self, expected: Expected);
}

impl TokenMatcher for proc_macro2::TokenStream {
    fn matches(self, expected: Expected) {
        matches_stream(self, expected);
    }
    fn matches_inside<T: SurroundingString>(self, expected: Expected) {
        matches_stream(self, Expected(T::surround(expected.0).as_str()));
    }
}

struct Input<'a>(&'a str);
impl<'a> Input<'a> {
    fn stream(&self) -> proc_macro2::TokenStream {
        self.0
            .parse::<proc_macro2::TokenStream>()
            .expect("the input string represents a valid input stream of tokens")
    }
}

struct Expected<'a>(&'a str);
impl<'a> Expected<'a> {
    fn stream(&self) -> proc_macro2::TokenStream {
        self.0
            .parse::<proc_macro2::TokenStream>()
            .expect("the expected output to be valid rust")
    }
}

fn matches_stream(result: proc_macro2::TokenStream, expected: Expected) {
    assert_eq!(expected.stream().to_string(), result.to_string());
}

/// The tokens of the library for the tokens of the host.
fn to_tokens(stream: proc_macro2::TokenStream) -> Vec<Token> {
    let mut tokens = Vec::new();
    for tree in stream {
        match tree {
            proc_macro2::TokenTree::Ident(id) => tokens.push(Token::Ident {
                text: id.to_string(),
                span: Span::call_site(),
            }),
            proc_macro2::TokenTree::Punct(p) => tokens.push(Token::Punct {
                ch: p.as_char(),
                joint: p.spacing() == proc_macro2::Spacing::Joint,
                span: Span::call_site(),
            }),
            proc_macro2::TokenTree::Literal(lit) => tokens.push(Token::Literal {
                text: lit.to_string(),
                span: Span::call_site(),
            }),
            proc_macro2::TokenTree::Group(g) => {
                let inner = to_tokens(g.stream());
                let delimiter = match g.delimiter() {
                    proc_macro2::Delimiter::Parenthesis => Some(Delimiter::Parenthesis),
                    proc_macro2::Delimiter::Brace => Some(Delimiter::Brace),
                    proc_macro2::Delimiter::Bracket => Some(Delimiter::Bracket),
                    proc_macro2::Delimiter::None => None,
                };
                match delimiter {
                    Some(delimiter) => tokens.push(Token::Group {
                        delimiter,
                        stream: inner,
                        span: Span::call_site(),
                    }),
                    None => tokens.extend(inner),
                }
            }
        }
    }
    tokens
}

/// The tokens of the host for the tokens of the library.
fn from_tokens(tokens: &[Token]) -> proc_macro2::TokenStream {
    let mut stream = proc_macro2::TokenStream::new();
    for token in tokens {
        let tree = match token {
            Token::Ident { text, .. } => proc_macro2::TokenTree::Ident(proc_macro2::Ident::new(
                text,
                proc_macro2::Span::call_site(),
            )),
            Token::Punct { ch, joint, .. } => {
                let spacing = if *joint {
                    proc_macro2::Spacing::Joint
                } else {
                    proc_macro2::Spacing::Alone
                };
                proc_macro2::TokenTree::Punct(proc_macro2::Punct::new(*ch, spacing))
            }
            Token::Literal { text, .. } => proc_macro2::TokenTree::Literal(
                text.parse::<proc_macro2::Literal>()
                    .expect("a literal of the input is a literal"),
            ),
            Token::Str { value, .. } => {
                proc_macro2::TokenTree::Literal(proc_macro2::Literal::string(value))
            }
            Token::Group { delimiter, stream, .. } => {
                let delimiter = match delimiter {
                    Delimiter::Parenthesis => proc_macro2::Delimiter::Parenthesis,
                    Delimiter::Brace => proc_macro2::Delimiter::Brace,
                    Delimiter::Bracket => proc_macro2::Delimiter::Bracket,
                };
                proc_macro2::TokenTree::Group(proc_macro2::Group::new(
                    delimiter,
                    from_tokens(stream),
                ))
            }
        };
        stream.extend([tree]);
    }
    stream
}

fn parse_valid(input: Input) -> proc_macro2::TokenStream {
    let mut output = SuiteGenerator::new();

    let tok = to_tokens(Input(format!("{{ {} }}", input.0).as_str()).stream())
        .into_iter()
        .next()
        .expect("there should be valid input");

    match tok {
        Token::Group { stream, .. } => Body::generate_body_in_suite(
            Suite::new(),
            Name::new(&Span::call_site(), "inner"),
            stream,
            &mut output,
        ),
        _ => panic!("body parsers can only parse groups"),
    };

    from_tokens(&output.generate_output())
}

struct SuiteStructure();
impl SurroundingString for SuiteStructure {
    fn surround(input: &str) -> String {
        format!(
            "#[cfg(test)] #[allow(unused_mut)] #[allow(unused_variables)]  mod spoketest {{ {} }}",
            input
        )
    }
}


#[test]
fn can_place_an_assertion_instead_of_a_body() {
    parse_valid(Input(
        r##"
            $"test" true $eq false;
        "##,
    ))
    .matches_inside::<SuiteStructure>(Expected(
        r##"
            #[test] 
            fn inner_test() {
                assert_eq!(true, false);
            }
        "##,
    ));
}

#[test]
fn can_place_a_negative_assertion_instead_of_a_body() {
    parse_valid(Input(
        r##"
            $"test" true $ne false;
        "##,
    ))
    .matches_inside::<SuiteStructure>(Expected(
        r##"
            #[test] 
            fn inner_test() {
                assert_ne!(true, false);
            }
        "##,
    ));
}

#[test]
fn half_an_assertion_is_an_error_left() {
    parse_valid(Input(
        r##"
            $"test" $ne false;
        "##,
    ))
    .matches_inside::<SuiteStructure>(Expected(
        r##"
            compile_error!("no code found for the left side of the equality assertion");
        "##,
    ));
}

#[test]
fn half_an_assertion_is_an_error_right() {
    parse_valid(Input(
        r##"
            $"test" true $ne;
        "##,
    ))
    .matches_inside::<SuiteStructure>(Expected(
        r##"
           compile_error!("no code found for the right hand side of the equality assertion");
        "##,
    ));
}

#[test]
fn half_an_assertion_due_to_truncated_input_is_an_error_right() {
    parse_valid(Input(
        r##"
            $"test" true $ne
        "##,
    ))
    .matches_inside::<SuiteStructure>(Expected(
        r##"
           compile_error!("reached end of group input before reaching the end of the equality assertion definition");
        "##,
    ));
}

#[test]
fn an_empty_assertion_produces_a_compile_error() {
    parse_valid(Input(
        r##"
            $"test";
        "##,
    ))
    .matches_inside::<SuiteStructure>(Expected(
        r##"
            compile_error!("expected an assertion or test body after the name, but found `;`");
        "##,
    ));
}

#[test]
fn running_out_of_input_in_an_assertion_is_an_error() {
    parse_valid(Input(
        r##"
            $"test" true
        "##,
    ))
    .matches_inside::<SuiteStructure>(Expected(
        r##"
            compile_error!("reached end of group input before finding details of the named assertion. Missing ; ?");
        "##,
    ));
}

#[test]
fn an_assertion_with_no_modifier_is_an_assert() {
    parse_valid(Input(
        r##"
            $"test" true;
        "##,
    ))
    .matches_inside::<SuiteStructure>(Expected(
        r##"#[test] 
            fn inner_test() {
                assert!(true);
            }
        "##,
    ));
}

#[test]
fn an_assertion_with_no_modifier_can_take_complex_code() {
    parse_valid(Input(
        r##"
            $"test" 7 < {let x = 5; x *2 } ;
        "##,
    ))
    .matches_inside::<SuiteStructure>(Expected(
        r##"#[test] 
            fn inner_test() {
                assert!(7 < {let x = 5; x *2});
            }
        "##,
    ));
}

#[test]
fn an_assertion_with_no_modifier_can_a_body_inside_parens() {
    parse_valid(Input(
        r##"
            $"test" ({let x = 5; x *2 } > 7) ;
        "##,
    ))
    .matches_inside::<SuiteStructure>(Expected(
        r##"#[test] 
            fn inner_test() {
                assert!(({let x = 5; x *2 } > 7));
            }
        "##,
    ));
}

#[test]
fn an_uknown_assertion_type_is_an_error() {
    parse_valid(Input(
        r##"
            $"test" true $plop ;
        "##,
    ))
    .matches_inside::<SuiteStructure>(Expected(
        r##"
            compile_error!("expected a valid assertion type [eq,ne] following the dollars, but found `plop`");
        "##,
    ));
}

#[test]
fn case_sensitivity_matters_for_assertion_names() {
    parse_valid(Input(
        r##"
            $"test" true $EQ false;
        "##,
    ))
    .matches_inside::<SuiteStructure>(Expected(
        r##"
            compile_error!("expected a valid assertion type [eq,ne] following the dollars, but found an incorrectly cased match `EQ` - asserts are all lowercase");
            #[test]
            fn inner_test () {
                assert_eq!(true, false); 
            }
        "##,
    ));
}


#[test]
fn cannot_have_an_assertion_in_a_body() {
    parse_valid(Input(
        r##"
            $"test" { $ne }
        "##,
    ))
    .matches_inside::<SuiteStructure>(Expected(
        r##"
        compile_error!("expected a valid test name following the dollars, but found an assertion 'ne' which isn't allowed inside the braced body of a test");
        compile_error!("reached end of group input before reaching the end of the test definition");
        "##,
    ));
}

#[test]
fn cannot_have_an_assertion_in_a_body_with_an_badly_cased_name() {
    parse_valid(Input(
        r##"
            $"test" { $NE }
        "##,
    ))
    .matches_inside::<SuiteStructure>(Expected(
        r##"
        compile_error!("expected a valid test name following the dollars, but found a badly formatted assertion 'ne' which isn't allowed inside the braced body of a test and should be lowercase");
        compile_error!("reached end of group input before reaching the end of the test definition");
        "##,
    ));
}

#[test]
fn a_literal_is_not_an_assertion() {
    parse_valid(Input(
        r##"
            $"test" true $"lit" ;
        "##,
    ))
    .matches_inside::<SuiteStructure>(Expected(
        r##"
            compile_error!("expected a valid assertion type [eq,ne] following the dollars, but found `\"lit\"` which looks like a test defintion. Tests cannot be nested inside asserts.");
        "##,
    ));
}

#[test]
fn a_semi_colon_isnt_a_valid_assert_name() {
    parse_valid(Input(
        r##"
            $"test" true $;
        "##,
    ))
    .matches_inside::<SuiteStructure>(Expected(
        r##"
            compile_error!("expected a valid assertion type [eq,ne] following the dollars, but found `;`");
        "##,
    ));
}

#[test]
fn a_symbol_isnt_a_valid_assert_name() {
    parse_valid(Input(
        r##"
            $"test" true $#;
        "##,
    ))
    .matches_inside::<SuiteStructure>(Expected(
        r##"
            compile_error!("expected a valid assertion type [eq,ne] following the dollars, but found `#`");
        "##,
    ));
}

#[test]
fn end_of_input_isnt_a_valid_assert_name() {
    parse_valid(Input(
        r##"
            $"test" true $
        "##,
    ))
    .matches_inside::<SuiteStructure>(Expected(
        r##"
            compile_error!("reached end of group input before reaching the end of the assertion definition");
        "##,
    ));
}

#[test]
fn end_of_input_isnt_a_valid_assert_error_recovery() {
    parse_valid(Input(
        r##"
            $"test" true $#
        "##,
    ))
    .matches_inside::<SuiteStructure>(Expected(
        r##"
            compile_error!("expected a valid assertion type [eq,ne] following the dollars, but found `#`");
            compile_error!("reached end of group input before reaching the end of the assertion definition");
        "##,
    ));
}

