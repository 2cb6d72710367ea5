use spoke::name::{CompoundName, Name, NameError, NameFactory, NAME_CAP};
use spoke::sanitise::{sanitise, WhitespaceSeparatedWords};
use spoke::span::Span;


#[test]
fn a_name_name_can_produce_a_simple_name() {
    let names = [Name::new(&Span::call_site(), "hello")];
    let name = CompoundName::new().followed_by(&names[0]);

    assert_eq!("hello", name.function_name().unwrap().0)
}

#[test]
fn totall_empty_names_are_collapsed_empty() {
    let names = [Name::new(&Span::call_site(), "")];
    let name = CompoundName::new().followed_by(&names[0]);

    assert_eq!(
        Err(NameError::EmptyName { location: Span::call_site() }),
        name.function_name()
    )
}
#[test]
fn empty_parent_names_are_collapsed() {
    let names = [
        Name::new(&Span::call_site(), ""),
        Name::new(&Span::call_site(), "child"),
    ];
    let name = CompoundName::new()
        .followed_by(&names[0])
        .followed_by(&names[1]);

    assert_eq!(
        Err(NameError::EmptyName { location: Span::call_site() }),
        name.function_name()
    )
}
#[test]
fn empty_child_names_are_collapsed_to_underscore() {
    let names = [
        Name::new(&Span::call_site(), "parent"),
        Name::new(&Span::call_site(), ""),
    ];
    let name = CompoundName::new()
        .followed_by(&names[0])
        .followed_by(&names[1]);

    assert_eq!(
        Err(NameError::EmptyName { location: Span::call_site() }),
        name.function_name()
    )
}

#[test]
fn names_collapse_whitesspace_to_underscore() {
    let names = [Name::new(&Span::call_site(), "hello world")];
    let name = CompoundName::new().followed_by(&names[0]);

    assert_eq!("hello_world", name.function_name().unwrap().0)
}

#[test]
fn names_collapse_multiple_whitesspace_to_a_single_underscore() {
    let names = [Name::new(&Span::call_site(), "hello    world")];
    let name = CompoundName::new().followed_by(&names[0]);

    assert_eq!("hello_world", name.function_name().unwrap().0)
}

#[test]
fn names_collapse_commas_to_comma() {
    let names = [Name::new(&Span::call_site(), "hello,world")];
    let name = CompoundName::new().followed_by(&names[0]);

    assert_eq!("hello_comma_world", name.function_name().unwrap().0)
}

#[test]
fn names_collapses_dot_to_dot() {
    let names = [Name::new(&Span::call_site(), "hello.world")];
    let name = CompoundName::new().followed_by(&names[0]);
    assert_eq!("hello_dot_world", name.function_name().unwrap().0)
}
#[test]
fn double_equals_collapses_to_equals_equals() {
    let names = [Name::new(&Span::call_site(), "hello==world")];
    let name = CompoundName::new().followed_by(&names[0]);
    assert_eq!("hello_equals_equals_world", name.function_name().unwrap().0)
}
#[test]
fn double_equals_collapses_to_equals_equals_additional_spaces_are_collapsed() {
    let names = [Name::new(&Span::call_site(), "hello == world")];
    let name = CompoundName::new().followed_by(&names[0]);
    assert_eq!("hello_equals_equals_world", name.function_name().unwrap().0)
}
#[test]
fn single_equals_collapses_to_equals() {
    let names = [Name::new(&Span::call_site(), "hello=world")];
    let name = CompoundName::new().followed_by(&names[0]);
    assert_eq!("hello_equals_world", name.function_name().unwrap().0)
}
#[test]
fn single_equals_collapses_to_equals_additional_spaces_are_collapsed() {
    let names = [Name::new(&Span::call_site(), "hello = world")];
    let name = CompoundName::new().followed_by(&names[0]);
    assert_eq!("hello_equals_world", name.function_name().unwrap().0)
}
#[test]
fn ampersand_collapses_to_ampersand() {
    let names = [Name::new(&Span::call_site(), "hello&world")];
    let name = CompoundName::new().followed_by(&names[0]);
    assert_eq!("hello_ampersand_world", name.function_name().unwrap().0)
}
#[test]
fn double_ampersand_collapses_to_ampersand_ampersand() {
    let names = [Name::new(&Span::call_site(), "hello&&world")];
    let name = CompoundName::new().followed_by(&names[0]);
    assert_eq!("hello_ampersand_ampersand_world", name.function_name().unwrap().0)
}

#[test]
fn paired_brackets_collapses_to_brackets() {
    let names = [Name::new(&Span::call_site(), "hello [] world")];
    let name = CompoundName::new().followed_by(&names[0]);
    assert_eq!("hello_brackets_world", name.function_name().unwrap().0)
}
#[test]
fn left_bracket_collapses_to_open_bracket() {
    let names = [Name::new(&Span::call_site(), "hello [ world")];
    let name = CompoundName::new().followed_by(&names[0]);
    assert_eq!("hello_open_bracket_world", name.function_name().unwrap().0)
}
#[test]
fn right_bracket_collapses_to_close_bracket() {
    let names = [Name::new(&Span::call_site(), "hello ] world")];
    let name = CompoundName::new().followed_by(&names[0]);
    assert_eq!("hello_close_bracket_world", name.function_name().unwrap().0)
}

#[test]
fn paired_parenthese_collapses_to_parens() {
    let names = [Name::new(&Span::call_site(), "hello () world")];
    let name = CompoundName::new().followed_by(&names[0]);
    assert_eq!("hello_parens_world", name.function_name().unwrap().0)
}
#[test]
fn left_parentesis_collapses_to_open_paren() {
    let names = [Name::new(&Span::call_site(), "hello ( world")];
    let name = CompoundName::new().followed_by(&names[0]);
    assert_eq!("hello_open_paren_world", name.function_name().unwrap().0)
}
#[test]
fn right_parentesis_collapses_to_close_paren() {
    let names = [Name::new(&Span::call_site(), "hello ) world")];
    let name = CompoundName::new().followed_by(&names[0]);
    assert_eq!("hello_close_paren_world", name.function_name().unwrap().0)
}

#[test]
fn paired_braces_collapses_to_braces() {
    let names = [Name::new(&Span::call_site(), "hello {} world")];
    let name = CompoundName::new().followed_by(&names[0]);
    assert_eq!("hello_braces_world", name.function_name().unwrap().0)
}
#[test]
fn left_brace_collapses_to_open_brace() {
    let names = [Name::new(&Span::call_site(), "hello { world")];
    let name = CompoundName::new().followed_by(&names[0]);
    assert_eq!("hello_open_brace_world", name.function_name().unwrap().0)
}
#[test]
fn right_brace_collapses_to_close_brace() {
    let names = [Name::new(&Span::call_site(), "hello } world")];
    let name = CompoundName::new().followed_by(&names[0]);
    assert_eq!("hello_close_brace_world", name.function_name().unwrap().0)
}

#[test]
fn paired_anglebrackets_collapses_to_angle_brackets() {
    let names = [Name::new(&Span::call_site(), "hello <> world")];
    let name = CompoundName::new().followed_by(&names[0]);
    assert_eq!("hello_angle_brackets_world", name.function_name().unwrap().0)
}
#[test]
fn left_angle_bracket_collapses_to_open_angle_bracket() {
    let names = [Name::new(&Span::call_site(), "hello < world")];
    let name = CompoundName::new().followed_by(&names[0]);
    assert_eq!("hello_open_angle_bracket_world", name.function_name().unwrap().0)
}
#[test]
fn right_angle_bracket_collapses_to_close_angle_bracket() {
    let names = [Name::new(&Span::call_site(), "hello > world")];
    let name = CompoundName::new().followed_by(&names[0]);
    assert_eq!("hello_close_angle_bracket_world", name.function_name().unwrap().0)
}

#[test]
fn paired_double_quotes_collapses_to_quotes() {
    let names = [Name::new(&Span::call_site(), "hello \"\" world")];
    let name = CompoundName::new().followed_by(&names[0]);
    assert_eq!("hello_quotes_world", name.function_name().unwrap().0)
}
#[test]
fn single_double_quotes_collapses_to_quote() {
    let names = [Name::new(&Span::call_site(), "hello \" world")];
    let name = CompoundName::new().followed_by(&names[0]);
    assert_eq!("hello_quote_world", name.function_name().unwrap().0)
}
#[test]
fn double_single_quotes_collapses_to_single_quotes() {
    let names = [Name::new(&Span::call_site(), "hello '' world")];
    let name = CompoundName::new().followed_by(&names[0]);
    assert_eq!("hello_single_quotes_world", name.function_name().unwrap().0)
}
#[test]
fn single_single_quotes_collapses_to_single_quote() {
    let names = [Name::new(&Span::call_site(), "hello ' world")];
    let name = CompoundName::new().followed_by(&names[0]);
    assert_eq!("hello_single_quote_world", name.function_name().unwrap().0)
}

#[test]
fn exclamation_collapses_to_exclamation() {
    let names = [Name::new(&Span::call_site(), "hello ! world")];
    let name = CompoundName::new().followed_by(&names[0]);
    assert_eq!("hello_exclamation_world", name.function_name().unwrap().0)
}

#[test]
fn questionmark_collapses_to_questionmark() {
    let names = [Name::new(&Span::call_site(), "hello ? world")];
    let name = CompoundName::new().followed_by(&names[0]);
    assert_eq!("hello_question_mark_world", name.function_name().unwrap().0)
}

#[test]
fn at_collapses_to_at() {
    let names = [Name::new(&Span::call_site(), "hello @ world")];
    let name = CompoundName::new().followed_by(&names[0]);
    assert_eq!("hello_at_world", name.function_name().unwrap().0)
}

#[test]
fn colon_collapses_to_colon() {
    let names = [Name::new(&Span::call_site(), "hello : world")];
    let name = CompoundName::new().followed_by(&names[0]);
    assert_eq!("hello_colon_world", name.function_name().unwrap().0)
}

#[test]
fn semicolon_collapses_to_semicolon() {
    let names = [Name::new(&Span::call_site(), "hello ; world")];
    let name = CompoundName::new().followed_by(&names[0]);
    assert_eq!("hello_semicolon_world", name.function_name().unwrap().0)
}

#[test]
fn percent_collapses_to_percent() {
    let names = [Name::new(&Span::call_site(), "hello % world")];
    let name = CompoundName::new().followed_by(&names[0]);
    assert_eq!("hello_percent_world", name.function_name().unwrap().0)
}
#[test]
fn hat_collapses_to_hat() {
    let names = [Name::new(&Span::call_site(), "hello ^ world")];
    let name = CompoundName::new().followed_by(&names[0]);
    assert_eq!("hello_hat_world", name.function_name().unwrap().0)
}

#[test]
fn star_collapses_to_star() {
    let names = [Name::new(&Span::call_site(), "hello * world")];
    let name = CompoundName::new().followed_by(&names[0]);
    assert_eq!("hello_star_world", name.function_name().unwrap().0)
}

#[test]
fn slash_collapses_to_slash() {
    let names = [Name::new(&Span::call_site(), "hello / world")];
    let name = CompoundName::new().followed_by(&names[0]);
    assert_eq!("hello_slash_world", name.function_name().unwrap().0)
}
#[test]
fn back_slash_collapses_to_backslash() {
    let names = [Name::new(&Span::call_site(), "hello \\ world")];
    let name = CompoundName::new().followed_by(&names[0]);
    assert_eq!("hello_backslash_world", name.function_name().unwrap().0)
}
#[test]
fn plus_collapses_to_plus() {
    let names = [Name::new(&Span::call_site(), "hello + world")];
    let name = CompoundName::new().followed_by(&names[0]);
    assert_eq!("hello_plus_world", name.function_name().unwrap().0)
}
#[test]
fn minus_collapses_to_minus() {
    let names = [Name::new(&Span::call_site(), "hello - world")];
    let name = CompoundName::new().followed_by(&names[0]);
    assert_eq!("hello_minus_world", name.function_name().unwrap().0)
}
#[test]
fn hash_collapses_to_hash() {
    let names = [Name::new(&Span::call_site(), "hello # world")];
    let name = CompoundName::new().followed_by(&names[0]);
    assert_eq!("hello_hash_world", name.function_name().unwrap().0)
}
#[test]
fn vertical_pipe_collapses_to_pipe() {
    let names = [Name::new(&Span::call_site(), "hello | world")];
    let name = CompoundName::new().followed_by(&names[0]);
    assert_eq!("hello_pipe_world", name.function_name().unwrap().0)
}
#[test]
fn dollar_sign_collapses_to_dollars() {
    let names = [Name::new(&Span::call_site(), "hello $ world")];
    let name = CompoundName::new().followed_by(&names[0]);
    assert_eq!("hello_dollars_world", name.function_name().unwrap().0)
}

#[test]
fn backtick_collapses_to_backtick() {
    let names = [Name::new(&Span::call_site(), "hello ` world")];
    let name = CompoundName::new().followed_by(&names[0]);
    assert_eq!("hello_backtick_world", name.function_name().unwrap().0)
}

#[test]
fn tilde_collapses_to_tilde() {
    let names = [Name::new(&Span::call_site(), "hello ~ world")];
    let name = CompoundName::new().followed_by(&names[0]);
    assert_eq!("hello_tilde_world", name.function_name().unwrap().0)
}

#[test]
fn valid_unicode_is_kept_as_is() {
    let names = [Name::new(&Span::call_site(), "hello 京 world")];
    let name = CompoundName::new().followed_by(&names[0]);
    assert_eq!("hello_京_world", name.function_name().unwrap().0)
}

#[test]
fn digits_are_kept_as_is() {
    let names = [Name::new(&Span::call_site(), "hello 0 world")];
    let name = CompoundName::new().followed_by(&names[0]);
    assert_eq!("hello_0_world", name.function_name().unwrap().0)
}

#[test]
fn names_ending_in_space_are_trimmed() {
    let names = [Name::new(&Span::call_site(), "hello world       ")];
    let name = CompoundName::new().followed_by(&names[0]);
    assert_eq!("hello_world", name.function_name().unwrap().0)
}
#[test]
fn names_ending_in_underscore_end_in_underscore() {
    let names = [Name::new(&Span::call_site(), "hello world       _")];
    let name = CompoundName::new().followed_by(&names[0]);
    assert_eq!("hello_world", name.function_name().unwrap().0)
}
#[test]
fn whitspace_at_the_start_is_discarded() {
    let names = [Name::new(&Span::call_site(), "    hello world")];
    let name = CompoundName::new().followed_by(&names[0]);
    assert_eq!("hello_world", name.function_name().unwrap().0)
}

#[test]
fn when_the_first_character_of_a_name_is_not_a_valid_identifier_the_name_is_prefixed_by_t() {
    let names = [Name::new(&Span::call_site(), "    0hello world")];
    let name = CompoundName::new().followed_by(&names[0]);
    assert_eq!("t0hello_world", name.function_name().unwrap().0)
}

#[test]
fn names_from_child_factories_contain_their_parents_as_prefixes() {
    let names = [
        Name::new(&Span::call_site(), "how"),
        Name::new(&Span::call_site(), "first"),
    ];
    let name = CompoundName::new()
        .followed_by(&names[0])
        .followed_by(&names[1]);

    assert_eq!("how_first", name.function_name().unwrap().0)
}

#[test]
fn names_from_many_layers_deep_child_factories_contain_their_parents_as_prefixes() {
    let names = [
        Name::new(&Span::call_site(), "melody how"),
        Name::new(&Span::call_site(), "are"),
        Name::new(&Span::call_site(), "you"),
    ];
    let name = CompoundName::new()
        .followed_by(&names[0])
        .followed_by(&names[1])
        .followed_by(&names[2]);

    assert_eq!("melody_how_are_you", name.function_name().unwrap().0)
}

#[test]
fn only_the_first_name_has_its_start_prefixed_with_t_if_needed() {
    let names = [
        Name::new(&Span::call_site(), "9melody how"),
        Name::new(&Span::call_site(), "0"),
        Name::new(&Span::call_site(), "1"),
    ];
    let name = CompoundName::new()
        .followed_by(&names[0])
        .followed_by(&names[1])
        .followed_by(&names[2]);

    assert_eq!("t9melody_how_0_1", name.function_name().unwrap().0)
}

#[test]
fn underscores_between_test_name_levels_are_collapsed() {
    let names = [
        Name::new(&Span::call_site(), "melody_"),
        Name::new(&Span::call_site(), "_the_"),
        Name::new(&Span::call_site(), "_hen"),
    ];
    let name = CompoundName::new()
        .followed_by(&names[0])
        .followed_by(&names[1])
        .followed_by(&names[2]);

    assert_eq!("melody_the_hen", name.function_name().unwrap().0)
}

#[test]
fn example_with_rust_code() {
    let names = [Name::new(
        &Span::call_site(),
        "let b = a_child.followed_by(Name::new(&Span::call_site(), \"are\"));",
    )];
    let name = CompoundName::new().followed_by(&names[0]);
    assert_eq!(
        "let_b_equals_a_child_dot_followed_by_open_paren_Name_colon_colon_new_open_paren_ampersand_Span_colon_colon_call_site_parens_comma_quote_are_quote_close_paren_close_paren_semicolon",
        name.function_name().unwrap().0
    )
}

#[test]
fn can_create_missing_names() {
    let names = [
        Name::missing(&Span::call_site(), 1),
        Name::missing(&Span::call_site(), 2),
        Name::missing(&Span::call_site(), 3),
    ];
    let name = CompoundName::new()
        .followed_by(&names[0])
        .followed_by(&names[1])
        .followed_by(&names[2]);

    assert_eq!("missing_name_missing_name_2_missing_name_3", name.function_name().unwrap().0)
}

#[test]
fn sanitise_collapses_white_space() {
    assert_eq!("hello_world", sanitise("hello world"));
    assert_eq!("hello_world", sanitise("hello \t\n world"));
}

#[test]
fn sanitise_spells_punctuation() {
    assert_eq!("hello_comma_world", sanitise("hello,world"));
    assert_eq!("hello_brackets_world", sanitise("hello [] world"));
    assert_eq!("hello_brackets_world", sanitise("hello[]world"));
    assert_eq!("a_dot_b", sanitise("a.b"));
}

#[test]
fn sanitise_of_nothing_is_nothing() {
    assert_eq!("", sanitise(""));
    assert_eq!("", sanitise("   "));
}

#[test]
fn sanitise_puts_no_underscore_before_a_leading_word() {
    assert_eq!("comma_a", sanitise(",a"));
    assert_eq!("a_comma", sanitise("a,"));
    assert_eq!("comma", sanitise(" , "));
}

#[test]
fn sanitise_collapses_underscores_like_white_space() {
    assert_eq!("a_b", sanitise("a__b"));
    assert_eq!("a_b", sanitise("a_b"));
    assert_eq!("a_b", sanitise("a _ b"));
    assert_eq!("a", sanitise("_a_"));
    assert_eq!("a_plus_b", sanitise("a_+_b"));
}

#[test]
fn sanitise_drops_an_opener_at_the_end() {
    assert_eq!("hello", sanitise("hello ["));
    assert_eq!("hello", sanitise("hello'"));
}

#[test]
fn sanitise_settles_an_opener_before_another() {
    assert_eq!("open_bracket_parens", sanitise("[()"));
    assert_eq!("open_paren_open_bracket_x", sanitise("([x"));
}

#[test]
fn sanitise_drops_what_no_identifier_holds() {
    assert_eq!("ab", sanitise("a\u{2603}b"));
}

#[test]
fn scanner_steps_can_be_taken_one_by_one() {
    let mut words = WhitespaceSeparatedWords::new(8);
    words.push_char('a');
    words.push_space();
    words.push_space();
    words.push_char('b');
    words.push_underscore();
    words.push_word("plus");
    words.push_pending('[');
    assert!(words.consume_with_pending(']'));
    words.push_pending('(');
    assert!(!words.consume_with_pending('x'));
    words.consume_char('x');
    words.start_white();
    assert!(words.push_pair_word("braces"));
    assert!(!words.push_single_word("quote"));
    assert_eq!("a_b_plus_brackets_open_paren_x_braces_quote", words.build());
    assert_eq!("", words.build());
}

#[test]
fn an_empty_name_is_rejected() {
    let name = Name::new(&Span::new(7), "");
    let path = CompoundName::new().followed_by(&name);
    assert_eq!(Err(NameError::EmptyName { location: Span::new(7) }), path.function_name());
    let path = CompoundName::new().followed_by(&name);
    assert_eq!(Err(NameError::EmptyName { location: Span::new(7) }), path.full_name());
    assert_eq!("test names cannot be empty", NameError::EmptyName { location: Span::new(7) }.message());
    assert_eq!(Span::new(7), NameError::EmptyName { location: Span::new(7) }.span());
}

#[test]
fn the_first_empty_name_is_the_one_reported() {
    let names = [
        Name::new(&Span::new(1), "a"),
        Name::new(&Span::new(2), ""),
        Name::new(&Span::new(3), ""),
    ];
    let path = CompoundName::new()
        .followed_by(&names[0])
        .followed_by(&names[1])
        .followed_by(&names[2]);
    assert_eq!(Err(NameError::EmptyName { location: Span::new(2) }), path.function_name());
}

#[test]
fn the_function_name_comes_with_the_place_of_the_last_name() {
    let names = [Name::new(&Span::new(1), "a"), Name::new(&Span::new(2), "b")];
    let path = CompoundName::new().followed_by(&names[0]).followed_by(&names[1]);
    assert_eq!(2, path.len());
    assert_eq!(Ok(("a_b".to_string(), Span::new(2))), path.function_name());
    assert_eq!(Ok((String::new(), Span::call_site())), CompoundName::new().function_name());
}

#[test]
fn full_names_are_joined_by_arrows() {
    let names = [
        Name::new(&Span::call_site(), "a vector"),
        Name::new(&Span::call_site(), "when pushed to"),
        Name::new(&Span::call_site(), "has length one"),
    ];
    let path = CompoundName::new()
        .followed_by(&names[0])
        .followed_by(&names[1])
        .followed_by(&names[2]);
    assert_eq!(
        Ok("a vector -> when pushed to -> has length one".to_string()),
        path.full_name()
    );
    assert_eq!(Ok(String::new()), CompoundName::new().full_name());
}

#[test]
fn a_factory_numbers_its_names_from_one() {
    let mut factory = NameFactory::new();
    assert!(!factory.has_title());
    assert_eq!(0, factory.count());
    let first = factory.make_name(&Span::new(3), "first");
    let second = factory.make_name(&Span::new(4), "");
    let third = factory.next_name(&Span::new(5), "third");
    assert_eq!(1, first.index());
    assert_eq!(2, second.index());
    assert_eq!(3, third.index());
    assert_eq!(3, factory.count());
    assert_eq!("first", first.text());
    assert_eq!("", second.text());
    assert_eq!(Span::new(3), first.span());
    let child = first.make_factory();
    assert!(child.has_title());
    assert_eq!(0, child.count());
    assert_eq!(1, Name::new(&Span::call_site(), "alone").index());
    let copy = third.clone();
    assert_eq!("third", copy.text());
    assert_eq!(3, copy.index());
}

#[test]
fn a_name_of_the_greatest_length_is_kept_whole() {
    let text = "a".repeat(NAME_CAP);
    let name = Name::new(&Span::call_site(), &text);
    let path = CompoundName::new().followed_by(&name);
    assert_eq!(text, path.function_name().unwrap().0);
}

#[test]
fn a_longer_name_is_cut_and_numbered() {
    let text = "a".repeat(NAME_CAP + 1);
    let mut factory = NameFactory::new();
    let name = factory.make_name(&Span::call_site(), &text);
    let path = CompoundName::new().followed_by(&name);
    let expected = format!("{}_1", "a".repeat(900));
    assert_eq!(expected, path.function_name().unwrap().0);
}

#[test]
fn the_number_of_a_cut_name_is_padded_to_the_width_of_the_count() {
    let text = "b".repeat(1200);
    let mut factory = NameFactory::new();
    let mut names = Vec::new();
    for _ in 0..12 {
        names.push(factory.make_name(&Span::call_site(), &text));
    }
    let third = CompoundName::new().followed_by_among(&names[2], factory.count());
    assert_eq!(format!("{}_03", "b".repeat(900)), third.function_name().unwrap().0);
    let last = CompoundName::new().followed_by_among(&names[11], factory.count());
    assert_eq!(format!("{}_12", "b".repeat(900)), last.function_name().unwrap().0);
    let alone = CompoundName::new().followed_by(&names[2]);
    assert_eq!(format!("{}_3", "b".repeat(900)), alone.function_name().unwrap().0);
    let wide = CompoundName::new().followed_by_among(&names[6], 1000);
    assert_eq!(format!("{}_0007", "b".repeat(900)), wide.function_name().unwrap().0);
}

#[test]
fn a_cut_name_inside_a_path_keeps_its_place() {
    let long = "c".repeat(901);
    let names = [
        Name::new(&Span::call_site(), "outer"),
        Name::new(&Span::call_site(), &long),
        Name::new(&Span::call_site(), "inner"),
    ];
    let path = CompoundName::new()
        .followed_by(&names[0])
        .followed_by(&names[1])
        .followed_by(&names[2]);
    assert_eq!(
        format!("outer_{}_1_inner", "c".repeat(900)),
        path.function_name().unwrap().0
    );
}

#[test]
fn a_name_that_sanitises_to_nothing_is_skipped_in_the_path() {
    let names = [
        Name::new(&Span::call_site(), "  "),
        Name::new(&Span::call_site(), "9 lives"),
    ];
    let path = CompoundName::new().followed_by(&names[0]).followed_by(&names[1]);
    assert_eq!("t9_lives", path.function_name().unwrap().0);
}

#[test]
fn missing_names_carry_their_number_from_the_second_on() {
    assert_eq!("missing_name", Name::missing(&Span::call_site(), 0).text());
    assert_eq!("missing_name", Name::missing(&Span::call_site(), 1).text());
    assert_eq!("missing_name_2", Name::missing(&Span::call_site(), 2).text());
    assert_eq!("missing_name_10", Name::missing(&Span::call_site(), 10).text());
    assert_eq!("missing_name_4096", Name::missing(&Span::call_site(), 4096).text());
}
