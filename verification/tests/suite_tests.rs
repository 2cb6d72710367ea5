use spoke::span::Span;
use spoke::spoke::generate_tests;
use spoke::token::{Delimiter, Token};

trait SurroundingString {
    fn surround(input: &str) -> String;
}

trait TokenMatcher {
    fn matches(self, expected: Expected);
    fn matches_inside<T: SurroundingString>(self, expected: Expected);
}

impl TokenMatcher for proc_macro2::TokenStream {
    fn matches(self, expected: Expected) {
        matches_stream(self, expected);
    }
    fn matches_inside<T: SurroundingString>(self, expected: Expected) {
        matches_stream(self, Expected(T::surround(expected.0).as_str()));
    }
}

struct Input<'a>(&'a str);
impl<'a> Input<'a> {
    fn stream(&self) -> proc_macro2::TokenStream {
        self.0
            .parse::<proc_macro2::TokenStream>()
            .expect("the input string represents a valid input stream of tokens")
    }
}

struct Expected<'a>(&'a str);
impl<'a> Expected<'a> {
    fn stream(&self) -> proc_macro2::TokenStream {
        self.0
            .parse::<proc_macro2::TokenStream>()
            .expect("the expected output to be valid rust")
    }
}

fn matches_stream(result: proc_macro2::TokenStream, expected: Expected) {
    assert_eq!(expected.stream().to_string(), result.to_string());
}

/// The tokens of the library for the tokens of the host.
fn to_tokens(stream: proc_macro2::TokenStream) -> Vec<Token> {
    let mut tokens = Vec::new();
    for tree in stream {
        match tree {
            proc_macro2::TokenTree::Ident(id) => tokens.push(Token::Ident {
                text: id.to_string(),
                span: Span::call_site(),
            }),
            proc_macro2::TokenTree::Punct(p) => tokens.push(Token::Punct {
                ch: p.as_char(),
                joint: p.spacing() == proc_macro2::Spacing::Joint,
                span: Span::call_site(),
            }),
            proc_macro2::TokenTree::Literal(lit) => tokens.push(Token::Literal {
                text: lit.to_string(),
                span: Span::call_site(),
            }),
            proc_macro2::TokenTree::Group(g) => {
                let inner = to_tokens(g.stream());
                let delimiter = match g.delimiter() {
                    proc_macro2::Delimiter::Parenthesis => Some(Delimiter::Parenthesis),
                    proc_macro2::Delimiter::Brace => Some(Delimiter::Brace),
                    proc_macro2::Delimiter::Bracket => Some(Delimiter::Bracket),
                    proc_macro2::Delimiter::None => None,
                };
                match delimiter {
                    Some(delimiter) => tokens.push(Token::Group {
                        delimiter,
                        stream: inner,
                        span: Span::call_site(),
                    }),
                    None => tokens.extend(inner),
                }
            }
        }
    }
    tokens
}

/// The tokens of the host for the tokens of the library.
fn from_tokens(tokens: &[Token]) -> proc_macro2::TokenStream {
    let mut stream = proc_macro2::TokenStream::new();
    for token in tokens {
        let tree = match token {
            Token::Ident { text, .. } => proc_macro2::TokenTree::Ident(proc_macro2::Ident::new(
                text,
                proc_macro2::Span::call_site(),
            )),
            Token::Punct { ch, joint, .. } => {
                let spacing = if *joint {
                    proc_macro2::Spacing::Joint
                } else {
                    proc_macro2::Spacing::Alone
                };
                proc_macro2::TokenTree::Punct(proc_macro2::Punct::new(*ch, spacing))
            }
            Token::Literal { text, .. } => proc_macro2::TokenTree::Literal(
                text.parse::<proc_macro2::Literal>()
                    .expect("a literal of the input is a literal"),
            ),
            Token::Str { value, .. } => {
                proc_macro2::TokenTree::Literal(proc_macro2::Literal::string(value))
            }
            Token::Group { delimiter, stream, .. } => {
                let delimiter = match delimiter {
                    Delimiter::Parenthesis => proc_macro2::Delimiter::Parenthesis,
                    Delimiter::Brace => proc_macro2::Delimiter::Brace,
                    Delimiter::Bracket => proc_macro2::Delimiter::Bracket,
                };
                proc_macro2::TokenTree::Group(proc_macro2::Group::new(
                    delimiter,
                    from_tokens(stream),
                ))
            }
        };
        stream.extend([tree]);
    }
    stream
}

fn parsing(input: Input) -> proc_macro2::TokenStream {
    from_tokens(&generate_tests(to_tokens(input.stream())))
}



#[test]
fn an_empty_input_produces_no_output() {
    parsing(Input(
        r##"
        "##,
    ))
    .matches(Expected(
        r##"
        "##,
    ));
}

#[test]
fn an_empty_test_body_produces_a_single_test() {
    parsing(Input(
        r##"
        $"first test" {}
        "##,
    ))
    .matches(Expected(
        r##"
        #[cfg(test)]
        #[allow(unused_mut)]
        #[allow(unused_variables)] 
        mod spoketest {
            #[test] fn first_test() { }
        }
        "##,
    ));
}

#[test]
fn allows_multiple_test_specifications() {
    parsing(Input(
        r##"
           $"my test"{}
           $"another test"{}
           $"3rd test"{}
        "##,
    ))
    .matches(Expected(
        r##"
        #[cfg(test)]
        #[allow (unused_mut)]
        #[allow (unused_variables)] 
        mod spoketest {
            #[test] fn my_test() { }
            #[test] fn another_test() { }
            #[test] fn t3rd_test() { }
        }
        "##,
    ));
}

#[test]
fn preamble_is_included() {
    parsing(Input(
        r##"
        use mycrate::*;
        use crate::deeply::nested::{
            my_first_function,
            my_second_function,
            AndATraitType
        };
        $"first test" {}
        "##,
    ))
    .matches(Expected(
        r##"
        #[cfg(test)]
        #[allow(unused_mut)]
        #[allow(unused_variables)] 
            mod spoketest {
            use mycrate::*;
            use crate::deeply::nested::{
                my_first_function,
                my_second_function,
                AndATraitType
            };

            #[test] fn first_test() { }
        }
        "##,
    ));
}

#[test]
fn preamble_is_only_included_once() {
    parsing(Input(
        r##"
            use mycrate::*;
            use crate::deeply::nested::{
                my_first_function,
                my_second_function,
                AndATraitType
            };
           $"my test"{}
           $"another test"{}
           $"3rd test"{}
        "##,
    ))
    .matches(Expected(
        r##"
            #[cfg(test)]
            #[allow (unused_mut)]
            #[allow (unused_variables)] 
            mod spoketest {        
                use mycrate::*;
                use crate::deeply::nested::{
                    my_first_function,
                    my_second_function,
                    AndATraitType
                };

                #[test] fn my_test() { }
                #[test] fn another_test() { }
                #[test] fn t3rd_test() { }
            }   
        "##,
    ));
}

#[test]
fn sparse_preamble_is_hoisted() {
    parsing(Input(
        r##"
            use mycrate::*;
            use crate::deeply::nested::{
                my_first_function,
                my_second_function,
                AndATraitType
            };
            $"my test"{}
            use thing::*;
            $"another test"{}
            use other::*;
            $"3rd test"{}
            use some::*;
        "##,
    ))
    .matches(Expected(
        r##"
            #[cfg(test)]
            #[allow (unused_mut)]
            #[allow (unused_variables)] 
            mod spoketest {        
                use mycrate::*;
                use crate::deeply::nested::{
                    my_first_function,
                    my_second_function,
                    AndATraitType
                };
                use thing::*;
                use other::*;
                use some::*;
                
                #[test] fn my_test() { }
                #[test] fn another_test() { }
                #[test] fn t3rd_test() { }
            }   
        "##,
    ));
}

#[test]
fn after_a_broken_name_test_body_is_still_produced() {
    parsing(Input(
        r##"
        $"first test"uhoh {}
        "##,
    ))
    .matches(Expected(
        r##"
        #[cfg(test)]
        #[allow(unused_mut)]
        #[allow(unused_variables)] 
        mod spoketest {
            compile_error!("expected a valid test case name in quotes following the dollars, but found `\"first test\"uhoh`\nunmatched suffix detected, `uhoh`, did you miss a space?");
            #[test] fn missing_name() { }
        }
        "##,
    ));
}

#[test]
fn after_a_broken_name_test_body_is_still_produced_2() {
    parsing(Input(
        r##"
        $first test {}
        "##,
    ))
    .matches(Expected(
        r##"
        #[cfg(test)]
        #[allow(unused_mut)]
        #[allow(unused_variables)] 
        mod spoketest {
            compile_error!("expected a valid test case name in quotes following the dollars, but found `first`");
            #[test] fn missing_name() { }
        }
        "##,
    ));
}




#[test]
fn missing_name_empty_test() {
    parsing(Input(
        r##"
           $;
        "##,
    ))
    .matches(Expected(
        r##"
            #[cfg(test)]
            #[allow (unused_mut)]
            #[allow (unused_variables)] 
            mod spoketest {
                compile_error!("expected a valid test case name in quotes following the dollars, but found `;` before any body was provided");
            }
        "##,
    ));
}
#[test]
fn missing_name_due_to_eof() {
    parsing(Input(
        r##"
           $
        "##,
    ))
    .matches(Expected(
        r##"
            #[cfg(test)]
            #[allow (unused_mut)]
            #[allow (unused_variables)] 
            mod spoketest {
                compile_error!("reached end of input before reaching the end of the test definition");
            }
        "##,
    ));
}

#[test]
fn invalid_name_token_empty_test() {
    parsing(Input(
        r##"
           $hello world;
        "##,
    ))
    .matches(Expected(
        r##"
            #[cfg(test)]
            #[allow (unused_mut)]
            #[allow (unused_variables)] 
            mod spoketest {
                compile_error!("expected a valid test case name in quotes following the dollars, but found `hello`");
            }
        "##,
    ));
}

#[test]
fn invalid_name_token_stream_end() {
    parsing(Input(
        r##"
           $hello
        "##,
    ))
    .matches(Expected(
        r##"
            #[cfg(test)]
            #[allow (unused_mut)]
            #[allow (unused_variables)] 
            mod spoketest {
                compile_error!("expected a valid test case name in quotes following the dollars, but found `hello`");
                compile_error!("reached end of input before reaching the end of the test definition");
            }
        "##,
    ));
}

#[test]
fn missing_top_level_test_body() {
    parsing(Input(
        r##"
           $"hello";
        "##,
    ))
    .matches(Expected(
        r##"
            #[cfg(test)]
            #[allow (unused_mut)]
            #[allow (unused_variables)] 
            mod spoketest {
                compile_error!("expected a test body in braces {} after the name but found `;`");
            }
        "##,
    ));
}

#[test]
fn invalid_token_directly_following_name() {
    parsing(Input(
        r##"
           $"hello"world;
        "##,
    ))
    .matches(Expected(
        r###"
            #[cfg(test)]
            #[allow (unused_mut)]
            #[allow (unused_variables)] 
            mod spoketest {
                compile_error!("expected a valid test case name in quotes following the dollars, but found `\"hello\"world`\nunmatched suffix detected, `world`, did you miss a space?");
            }
        "###,
    ));
}

#[test]
fn eof_token_directly_following_name() {
    parsing(Input(
        r##"
           $"hello"
        "##,
    ))
    .matches(Expected(
        r###"
            #[cfg(test)]
            #[allow (unused_mut)]
            #[allow (unused_variables)] 
            mod spoketest {
                compile_error!("reached end of input before finding the test body for named test");
            }
        "###,
    ));
}

#[test]
fn valid_name_then_error_token_then_eof() {
    parsing(Input(
        r##"
           $"hello" #
        "##,
    ))
    .matches(Expected(
        r###"
            #[cfg(test)]
            #[allow (unused_mut)]
            #[allow (unused_variables)] 
            mod spoketest {
                compile_error!("reached end of input before finding details of the named assertion. Missing ; ?");
            }
        "###,
    ));
}

