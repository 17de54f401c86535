use element_ptr::access::{
    AccessList, CastAccess, ElementAccess, FieldAccess, FieldAccessType, GroupAccess, IndexAccess,
    OffsetAccess, OffsetType, OffsetValue,
};
use element_ptr::expand::{base_crate, element_ptr, expand, FoundCrate};
use element_ptr::generate::AccessListToTokensCtx;
use element_ptr::grammar::ParseError;
use element_ptr::parse::{expression, MacroInput};
use element_ptr::token::{copy_range, copy_token, render, Delim, Token};

fn convert(stream: proc_macro2::TokenStream) -> Vec<Token> {
    let mut out = Vec::new();
    for tree in stream {
        out.push(match tree {
            proc_macro2::TokenTree::Group(group) => {
                let delim = match group.delimiter() {
                    proc_macro2::Delimiter::Bracket => Delim::Bracket,
                    proc_macro2::Delimiter::Brace => Delim::Brace,
                    _ => Delim::Paren,
                };
                Token::Group(delim, convert(group.stream()))
            }
            proc_macro2::TokenTree::Ident(ident) => Token::Ident(ident.to_string()),
            proc_macro2::TokenTree::Punct(punct) => {
                Token::Punct(punct.as_char(), punct.spacing() == proc_macro2::Spacing::Joint)
            }
            proc_macro2::TokenTree::Literal(literal) => Token::Literal(literal.to_string()),
        });
    }
    out
}

fn lex(text: &str) -> Vec<Token> {
    convert(text.parse::<proc_macro2::TokenStream>().unwrap())
}

fn chain_of(text: &str) -> Result<AccessList, ParseError> {
    AccessList::parse(&lex(text), 0)
}

fn failure_of(text: &str) -> ParseError {
    match MacroInput::parse(&lex(text)) {
        Ok(_) => panic!("{} was read as a chain", text),
        Err(e) => e,
    }
}

fn program_of(list: &AccessList) -> String {
    let ctx = AccessListToTokensCtx { list, base_crate: "element_ptr" };
    let mut out = Vec::new();
    ctx.to_tokens(&mut out);
    render(&out)
}

fn program_text(text: &str) -> String {
    program_of(&chain_of(text).unwrap())
}

const WRAP: &str = "let ptr = :: element_ptr :: helper :: new_pointer (ptr ) ; ";
const READ: &str = "let ptr = ptr . read () ; ";
const UNWRAP: &str = "ptr . into_inner () ";

fn field(selector: &str) -> String {
    format!(
        "let ptr = ptr . copy_addr (:: core :: ptr :: addr_of ! ((* ptr . into_const () ) . {}) ) ; ",
        selector
    )
}

fn index(expr: &str) -> String {
    format!("let ptr = :: element_ptr :: helper :: index (ptr , {}) ; ", expr)
}

fn method(name: &str, args: &str) -> String {
    format!("let ptr = ptr . {} ({}) ; ", name, args)
}

fn cast(ty: &str) -> String {
    format!("let ptr = ptr . cast :: < {}> () ; ", ty)
}

fn block(inner: &str) -> String {
    format!("let ptr = {{{}}} ; ", inner)
}

#[test]
fn render_writes_tokens_with_spaces_between() {
    assert_eq!(render(&lex("a.b[1] => x::<T>()")), "a . b [1 ] => x ::< T > () ");
    assert_eq!(render(&lex("")), "");
    assert_eq!(render(&lex("{ 'a' \"s\" }")), "{'a' \"s\" } ");
}

#[test]
fn copies_keep_every_token() {
    let tokens = lex("a (b [c] {d}) e");
    assert_eq!(render(&copy_range(&tokens, 0, 3)), "a (b [c ] {d } ) e ");
    assert_eq!(render(&copy_range(&tokens, 1, 2)), "(b [c ] {d } ) ");
    assert_eq!(render(&copy_range(&tokens, 2, 2)), "");
    assert_eq!(render(&vec![copy_token(&tokens[1])]), "(b [c ] {d } ) ");
}

#[test]
fn empty_chain_is_the_identity() {
    let parsed = MacroInput::parse(&lex("p =>")).unwrap();
    assert_eq!(render(&parsed.ptr), "p ");
    assert!(parsed.body.0.is_empty());
    assert_eq!(program_text(""), UNWRAP);
}

#[test]
fn pointer_expression_is_what_stands_before_the_first_arrow() {
    let parsed = MacroInput::parse(&lex("base.get(1) as *const Foo<T> => as u8 => +1")).unwrap();
    assert_eq!(render(&parsed.ptr), "base . get (1 ) as * const Foo < T > ");
    assert_eq!(parsed.body.0.len(), 2);
    let parsed = MacroInput::parse(&lex("match x { a => b } => .c")).unwrap();
    assert_eq!(render(&parsed.ptr), "match x {a => b } ");
    assert_eq!(parsed.body.0.len(), 1);
}

#[test]
fn named_field_takes_an_address_without_a_reference() {
    assert_eq!(program_text(".a"), format!("{}{}", field("a "), UNWRAP));
    match &chain_of(".some_field").unwrap().0[0] {
        ElementAccess::Field(FieldAccess { field: Some(FieldAccessType::Named(name)) }) => {
            assert_eq!(name, "some_field")
        }
        other => panic!("{:?}", other),
    }
}

#[test]
fn tuple_position_is_written_in_decimal() {
    assert_eq!(program_text(".0"), format!("{}{}", field("0 "), UNWRAP));
    assert_eq!(program_text(".0x1_0"), format!("{}{}", field("16 "), UNWRAP));
    assert_eq!(program_text(".4294967295"), format!("{}{}", field("4294967295 "), UNWRAP));
    assert_eq!(program_text(".1007"), format!("{}{}", field("1007 "), UNWRAP));
    match &chain_of(".0b101").unwrap().0[0] {
        ElementAccess::Field(FieldAccess { field: Some(FieldAccessType::Tuple(position)) }) => {
            assert_eq!(*position, 5)
        }
        other => panic!("{:?}", other),
    }
}

#[test]
fn dereference_reads_and_hands_out_the_value() {
    assert_eq!(program_text(".*"), format!("{}ptr ", READ));
    assert_eq!(program_text(".a.*"), format!("{}{}ptr ", field("a "), READ));
}

#[test]
fn navigation_after_a_dereference_wraps_again() {
    assert_eq!(
        program_text(".*.a"),
        format!("{}{}{}{}", READ, WRAP, field("a "), UNWRAP)
    );
    assert_eq!(program_text(".*.*"), format!("{}{}{}ptr ", READ, WRAP, READ));
}

#[test]
fn index_calls_the_indexing_helper() {
    assert_eq!(program_text("[3]"), format!("{}{}", index("3 "), UNWRAP));
    assert_eq!(program_text("[i + 1]"), format!("{}{}", index("i + 1 "), UNWRAP));
    match &chain_of("[a[0]]").unwrap().0[0] {
        ElementAccess::Index(IndexAccess { index }) => assert_eq!(render(index), "a [0 ] "),
        other => panic!("{:?}", other),
    }
}

#[test]
fn offsets_pick_the_method_by_unit_and_direction() {
    assert_eq!(program_text("+ 1"), format!("{}{}", method("add", "1 "), UNWRAP));
    assert_eq!(program_text("-2usize"), format!("{}{}", method("sub", "2usize "), UNWRAP));
    assert_eq!(program_text("u8+8"), format!("{}{}", method("byte_add", "8 "), UNWRAP));
    assert_eq!(program_text("u8 - 0x10"), format!("{}{}", method("byte_sub", "0x10 "), UNWRAP));
    assert_eq!(program_text("+(n * 2)"), format!("{}{}", method("add", "n * 2 "), UNWRAP));
    assert_eq!(program_text("u8-(f(x))"), format!("{}{}", method("byte_sub", "f (x ) "), UNWRAP));
}

#[test]
fn offset_amount_may_carry_a_minus_sign() {
    let list = chain_of("+ -1").unwrap();
    match &list.0[0] {
        ElementAccess::Offset(OffsetAccess {
            byte: false,
            offset_type: OffsetType::Add,
            value: OffsetValue::Integer { negative: true, literal },
        }) => assert_eq!(literal, "1"),
        other => panic!("{:?}", other),
    }
    assert_eq!(program_of(&list), format!("{}{}", method("add", "-1 "), UNWRAP));
    let list = chain_of("--3").unwrap();
    assert_eq!(list.0.len(), 1);
    assert_eq!(program_of(&list), format!("{}{}", method("sub", "-3 "), UNWRAP));
}

#[test]
fn cast_without_arrow_ends_the_chain() {
    let list = chain_of("as u8").unwrap();
    match &list.0[0] {
        ElementAccess::Cast(CastAccess { ty, arrow: false }) => assert_eq!(render(ty), "u8 "),
        other => panic!("{:?}", other),
    }
    assert!(list.0[0].is_final());
    assert_eq!(program_of(&list), format!("{}{}", cast("u8 "), UNWRAP));
}

#[test]
fn cast_with_arrow_goes_on() {
    let list = chain_of("as [Vec<u8>; 4] => [1] as u8").unwrap();
    assert_eq!(list.0.len(), 3);
    match &list.0[0] {
        ElementAccess::Cast(CastAccess { ty, arrow: true }) => {
            assert_eq!(render(ty), "[Vec < u8 >; 4 ] ")
        }
        other => panic!("{:?}", other),
    }
    assert!(!list.0[0].is_final());
    assert!(!list.0[1].is_final());
    assert!(list.0[2].is_final());
    assert_eq!(
        program_of(&list),
        format!(
            "{}{}{}{}",
            cast("[Vec < u8 >; 4 ] "),
            index("1 "),
            cast("u8 "),
            UNWRAP
        )
    );
}

#[test]
fn cast_takes_the_longest_type() {
    let list = chain_of("as fn(u8) -> Foo<T> => .x").unwrap();
    match &list.0[0] {
        ElementAccess::Cast(CastAccess { ty, arrow: true }) => {
            assert_eq!(render(ty), "fn (u8 ) -> Foo < T > ")
        }
        other => panic!("{:?}", other),
    }
    let list = chain_of("as Foo<T>=>.x").unwrap();
    assert_eq!(list.0.len(), 2);
    match &list.0[0] {
        ElementAccess::Cast(CastAccess { ty, arrow: true }) => {
            assert_eq!(render(ty), "Foo < T >")
        }
        other => panic!("{:?}", other),
    }
}

#[test]
fn group_is_a_block_and_its_result_is_wrapped_again() {
    assert_eq!(
        program_text("(.a) .b"),
        format!(
            "{}{}{}{}",
            block(&format!("{}{}", field("a "), UNWRAP)),
            WRAP,
            field("b "),
            UNWRAP
        )
    );
    assert_eq!(
        program_text("(.a.*)"),
        format!("{}ptr ", block(&format!("{}{}ptr ", field("a "), READ)))
    );
    assert_eq!(
        program_text(".* (.a)"),
        format!(
            "{}{}{}ptr ",
            READ,
            WRAP,
            block(&format!("{}{}", field("a "), UNWRAP))
        )
    );
    assert_eq!(
        program_text("((+1))"),
        format!(
            "{}ptr ",
            block(&format!(
                "{}ptr ",
                block(&format!("{}{}", method("add", "1 "), UNWRAP))
            ))
        )
    );
    assert_eq!(program_text("()"), format!("{}ptr ", block(UNWRAP)));
}

#[test]
fn group_may_end_in_a_cast_without_arrow() {
    let list = chain_of("(as u8) +1").unwrap();
    assert_eq!(list.0.len(), 2);
    match &list.0[0] {
        ElementAccess::Group(GroupAccess { inner }) => {
            assert_eq!(inner.0.len(), 1);
            assert!(inner.0[0].is_final());
        }
        other => panic!("{:?}", other),
    }
    assert!(!list.0[0].is_final());
}

#[test]
fn dot_that_nothing_follows_is_reported_in_the_expansion() {
    let list = chain_of(".a.").unwrap();
    assert_eq!(list.0.len(), 2);
    match &list.0[1] {
        ElementAccess::Field(FieldAccess { field: None }) => {}
        other => panic!("{:?}", other),
    }
    assert!(!list.0[1].is_final());
    assert_eq!(
        program_of(&list),
        format!(
            "{}{}:: core :: compile_error ! {{\"expected an identifier, integer literal, or `*` after this `.`\" }} ; ",
            field("a "),
            field("")
        )
    );
    assert_eq!(
        program_text(".*."),
        format!(
            "{}{}{}:: core :: compile_error ! {{\"expected an identifier, integer literal, or `*` after this `.`\" }} ; ",
            READ,
            WRAP,
            field("")
        )
    );
}

#[test]
fn generation_stops_at_a_dot_without_field() {
    let list = AccessList(vec![
        ElementAccess::Field(FieldAccess { field: None }),
        ElementAccess::Field(FieldAccess {
            field: Some(FieldAccessType::Named(String::from("never"))),
        }),
    ]);
    assert_eq!(
        program_of(&list),
        format!(
            "{}:: core :: compile_error ! {{\"expected an identifier, integer literal, or `*` after this `.`\" }} ; ",
            field("")
        )
    );
}

#[test]
fn missing_arrow_is_refused() {
    assert_eq!(failure_of("p"), ParseError::ExpectedArrow);
    assert_eq!(failure_of(""), ParseError::ExpectedArrow);
    assert_eq!(failure_of("p = > .a"), ParseError::ExpectedArrow);
    assert_eq!(failure_of("(p => .a)"), ParseError::ExpectedArrow);
}

#[test]
fn pointer_expression_must_be_an_expression() {
    assert_eq!(failure_of("=> .a"), ParseError::ExpectedExpression);
    assert_eq!(failure_of("p + => .a"), ParseError::ExpectedExpression);
    assert_eq!(failure_of("p q => .a"), ParseError::ExpectedExpression);
}

#[test]
fn unknown_access_is_refused() {
    assert_eq!(failure_of("p => x"), ParseError::ExpectedAccess);
    assert_eq!(failure_of("p => .a {b}"), ParseError::ExpectedAccess);
    assert_eq!(failure_of("p => 3"), ParseError::ExpectedAccess);
    assert_eq!(failure_of("p => *"), ParseError::ExpectedAccess);
    assert_eq!(failure_of("p => (x)"), ParseError::ExpectedAccess);
    assert_eq!(failure_of("p => => .a"), ParseError::ExpectedAccess);
}

#[test]
fn member_after_dot_is_checked() {
    assert_eq!(failure_of("p => .fn"), ParseError::ExpectedMember);
    assert_eq!(failure_of("p => . +"), ParseError::ExpectedMember);
    assert_eq!(failure_of("p => .\"a\""), ParseError::ExpectedMember);
    assert_eq!(failure_of("p => .1.5"), ParseError::ExpectedMember);
    assert_eq!(failure_of("p => .(a)"), ParseError::ExpectedMember);
}

#[test]
fn tuple_position_must_be_plain_and_fit() {
    assert_eq!(failure_of("p => .1u8"), ParseError::ExpectedTupleIndex);
    assert_eq!(failure_of("p => .4294967296"), ParseError::ExpectedTupleIndex);
    assert_eq!(failure_of("p => .-1"), ParseError::ExpectedTupleIndex);
}

#[test]
fn offset_needs_sign_and_amount() {
    assert_eq!(failure_of("p => u8"), ParseError::ExpectedSign);
    assert_eq!(failure_of("p => u8 4"), ParseError::ExpectedSign);
    assert_eq!(failure_of("p => u8 .a"), ParseError::ExpectedSign);
    assert_eq!(failure_of("p => +"), ParseError::ExpectedAmount);
    assert_eq!(failure_of("p => + n"), ParseError::ExpectedAmount);
    assert_eq!(failure_of("p => - 1.5"), ParseError::ExpectedAmount);
    assert_eq!(failure_of("p => u8+ [1]"), ParseError::ExpectedAmount);
}

#[test]
fn embedded_expressions_are_checked() {
    assert_eq!(failure_of("p => []"), ParseError::ExpectedExpression);
    assert_eq!(failure_of("p => [a b]"), ParseError::ExpectedExpression);
    assert_eq!(failure_of("p => +()"), ParseError::ExpectedExpression);
    assert_eq!(failure_of("p => -(1 +)"), ParseError::ExpectedExpression);
}

#[test]
fn cast_needs_a_type() {
    assert_eq!(failure_of("p => as"), ParseError::ExpectedType);
    assert_eq!(failure_of("p => as 3"), ParseError::ExpectedType);
    assert_eq!(failure_of("p => as => .a"), ParseError::ExpectedType);
}

#[test]
fn nothing_may_follow_a_cast_without_arrow() {
    assert_eq!(failure_of("p => as u8 .a"), ParseError::UnexpectedTokens);
    assert_eq!(failure_of("p => as u8 as u16"), ParseError::UnexpectedTokens);
    assert_eq!(failure_of("p => (as u8 +1)"), ParseError::UnexpectedTokens);
    assert_eq!(failure_of("p => as u8 = > .a"), ParseError::UnexpectedTokens);
    assert_eq!(ParseError::UnexpectedTokens.message(), "");
}

#[test]
fn failure_inside_a_group_is_the_failure_of_the_chain() {
    assert_eq!(failure_of("p => .a (.b x)"), ParseError::ExpectedAccess);
    assert_eq!(failure_of("p => ((u8))"), ParseError::ExpectedSign);
}

#[test]
fn every_failure_has_its_message() {
    assert_eq!(ParseError::ExpectedArrow.message(), "expected `=>`");
    assert_eq!(ParseError::ExpectedExpression.message(), "expected an expression");
    assert_eq!(ParseError::ExpectedAccess.message(), "expected valid element access");
    assert_eq!(
        ParseError::ExpectedMember.message(),
        "expected one of: `*`, identifier, integer literal"
    );
    assert_eq!(
        ParseError::ExpectedTupleIndex.message(),
        "expected an unsuffixed integer that fits in 32 bits"
    );
    assert_eq!(ParseError::ExpectedSign.message(), "expected `+` or `-`");
    assert_eq!(
        ParseError::ExpectedAmount.message(),
        "expected parentheses or integer literal"
    );
    assert_eq!(ParseError::ExpectedType.message(), "expected a type");
}

#[test]
fn support_library_name_defaults_to_its_own() {
    assert_eq!(base_crate(None), "element_ptr");
    assert_eq!(base_crate(Some(FoundCrate::Itself)), "element_ptr");
    assert_eq!(base_crate(Some(FoundCrate::Name(String::from("renamed")))), "renamed");
}

#[test]
fn expansion_wraps_the_program_in_an_unsafe_block() {
    let out = expand(&lex("base => .a"), "element_ptr").unwrap();
    assert_eq!(
        render(&out),
        format!(
            "{{let ptr = base ; :: element_ptr :: helper :: element_ptr_unsafe () ; \
             # [allow (unused_unsafe ) ] unsafe {{{}{}{}}} }} ",
            WRAP,
            field("a "),
            UNWRAP
        )
    );
}

#[test]
fn expansion_names_the_support_library_as_found() {
    let out = element_ptr(&lex("p => [0]"), Some(FoundCrate::Name(String::from("ep"))));
    assert_eq!(
        render(&out),
        "{let ptr = p ; :: ep :: helper :: element_ptr_unsafe () ; \
         # [allow (unused_unsafe ) ] unsafe {let ptr = :: ep :: helper :: new_pointer (ptr ) ; \
         let ptr = :: ep :: helper :: index (ptr , 0 ) ; ptr . into_inner () } } "
    );
}

#[test]
fn failed_expansion_is_a_report() {
    let out = element_ptr(&lex("p => x"), None);
    assert_eq!(
        render(&out),
        ":: core :: compile_error ! {\"expected valid element access\" } "
    );
    assert_eq!(expand(&lex("p => x"), "element_ptr").err(), Some(ParseError::ExpectedAccess));
    let out = element_ptr(&lex("p => as u8 .a"), None);
    assert_eq!(render(&out), ":: core :: compile_error ! {\"\" } ");
}

#[test]
fn grouping_keeps_the_steps_in_order() {
    let grouped = program_text(".a (.b [1]) +2");
    let flat = program_text(".a .b [1] +2");
    assert_eq!(
        flat,
        format!(
            "{}{}{}{}{}",
            field("a "),
            field("b "),
            index("1 "),
            method("add", "2 "),
            UNWRAP
        )
    );
    assert_eq!(
        grouped,
        format!(
            "{}{}{}{}{}",
            field("a "),
            block(&format!("{}{}{}", field("b "), index("1 "), UNWRAP)),
            WRAP,
            method("add", "2 "),
            UNWRAP
        )
    );
}

#[test]
fn record_scenario_takes_addresses_without_reading() {
    let text = program_text(".c.items[3]");
    assert_eq!(
        text,
        format!("{}{}{}{}", field("c "), field("items "), index("3 "), UNWRAP)
    );
    assert!(!text.contains("read"));
}

#[test]
fn record_scenario_reads_only_the_stored_pointer() {
    let text = program_text(".d.*.c.items[0]");
    assert_eq!(
        text,
        format!(
            "{}{}{}{}{}{}{}",
            field("d "),
            READ,
            WRAP,
            field("c "),
            field("items "),
            index("0 "),
            UNWRAP
        )
    );
    assert_eq!(text.matches("read").count(), 1);
}

#[test]
fn member_is_decided_from_what_stands_after_the_dot() {
    match FieldAccessType::found(true, Some(String::from("a")), Some((false, Some(3)))) {
        Ok((FieldAccessType::Deref, 1)) => {}
        other => panic!("{:?}", other),
    }
    match FieldAccessType::found(false, Some(String::from("a")), Some((false, Some(3)))) {
        Ok((FieldAccessType::Named(name), 1)) => assert_eq!(name, "a"),
        other => panic!("{:?}", other),
    }
    match FieldAccessType::found(false, None, Some((false, Some(3)))) {
        Ok((FieldAccessType::Tuple(3), 1)) => {}
        other => panic!("{:?}", other),
    }
    match FieldAccessType::found(false, None, Some((true, Some(0)))) {
        Ok((FieldAccessType::Tuple(0), 2)) => {}
        other => panic!("{:?}", other),
    }
    assert_eq!(
        FieldAccessType::found(false, None, Some((false, None))).err(),
        Some(ParseError::ExpectedTupleIndex)
    );
    assert_eq!(
        FieldAccessType::found(false, None, None).err(),
        Some(ParseError::ExpectedMember)
    );
}

#[test]
fn amount_is_decided_from_what_stands_after_the_sign() {
    match OffsetValue::found(Some((lex("n + 1"), true)), Some((false, String::from("7")))) {
        Ok((OffsetValue::Grouped { expr }, 1)) => assert_eq!(render(&expr), "n + 1 "),
        other => panic!("{:?}", other),
    }
    assert_eq!(
        OffsetValue::found(Some((lex("n +"), false)), Some((false, String::from("7")))).err(),
        Some(ParseError::ExpectedExpression)
    );
    match OffsetValue::found(None, Some((false, String::from("7")))) {
        Ok((OffsetValue::Integer { negative: false, literal }, 1)) => assert_eq!(literal, "7"),
        other => panic!("{:?}", other),
    }
    match OffsetValue::found(None, Some((true, String::from("7")))) {
        Ok((OffsetValue::Integer { negative: true, literal }, 2)) => assert_eq!(literal, "7"),
        other => panic!("{:?}", other),
    }
    assert_eq!(OffsetValue::found(None, None).err(), Some(ParseError::ExpectedAmount));
}

#[test]
fn cast_is_decided_from_the_type_found() {
    match CastAccess::found(Some(lex("u8")), true) {
        Ok(CastAccess { ty, arrow: true }) => assert_eq!(render(&ty), "u8 "),
        other => panic!("{:?}", other),
    }
    match CastAccess::found(Some(lex("[u8; 2]")), false) {
        Ok(CastAccess { ty, arrow: false }) => assert_eq!(render(&ty), "[u8 ; 2 ] "),
        other => panic!("{:?}", other),
    }
    assert_eq!(CastAccess::found(None, false).err(), Some(ParseError::ExpectedType));
    assert_eq!(CastAccess::found(None, true).err(), Some(ParseError::ExpectedType));
}

#[test]
fn expression_is_kept_only_where_it_is_one() {
    assert_eq!(render(&expression(lex("a + b"), true).unwrap()), "a + b ");
    assert_eq!(expression(lex("a +"), false).err(), Some(ParseError::ExpectedExpression));
}
