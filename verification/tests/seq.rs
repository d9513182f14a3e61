use macro_workshop::seq::parse::ParseError;
use macro_workshop::seq::{Failure, RangeWrapper, SeqGroup, SeqTokenTree, SeqTrees};
use macro_workshop::tokens::{Delimiter, Span, TokenTree};

fn delimiter_of(delimiter: proc_macro2::Delimiter) -> Delimiter {
    match delimiter {
        proc_macro2::Delimiter::Parenthesis => Delimiter::Parenthesis,
        proc_macro2::Delimiter::Brace => Delimiter::Brace,
        proc_macro2::Delimiter::Bracket => Delimiter::Bracket,
        proc_macro2::Delimiter::None => Delimiter::Invisible,
    }
}

fn delimiter_to(delimiter: Delimiter) -> proc_macro2::Delimiter {
    match delimiter {
        Delimiter::Parenthesis => proc_macro2::Delimiter::Parenthesis,
        Delimiter::Brace => proc_macro2::Delimiter::Brace,
        Delimiter::Bracket => proc_macro2::Delimiter::Bracket,
        Delimiter::Invisible => proc_macro2::Delimiter::None,
    }
}

fn number(counter: &mut usize) -> Span {
    *counter += 1;
    Span::Source(*counter)
}

fn model(stream: proc_macro2::TokenStream, counter: &mut usize) -> Vec<TokenTree> {
    let mut trees = Vec::new();
    for tree in stream {
        trees.push(match tree {
            proc_macro2::TokenTree::Ident(ident) => TokenTree::Ident {
                name: ident.to_string(),
                span: number(counter),
            },
            proc_macro2::TokenTree::Punct(punct) => TokenTree::Punct {
                ch: punct.as_char(),
                joint: punct.spacing() == proc_macro2::Spacing::Joint,
                span: number(counter),
            },
            proc_macro2::TokenTree::Literal(literal) => TokenTree::Literal {
                text: literal.to_string(),
                span: number(counter),
            },
            proc_macro2::TokenTree::Group(group) => {
                let span = number(counter);
                TokenTree::Group {
                    delimiter: delimiter_of(group.delimiter()),
                    stream: model(group.stream(), counter),
                    span,
                }
            }
        });
    }
    trees
}

fn tokens(source: &str) -> Vec<TokenTree> {
    let stream: proc_macro2::TokenStream = source.parse().unwrap();
    model(stream, &mut 0)
}

fn stream_of(trees: &[TokenTree]) -> proc_macro2::TokenStream {
    let mut stream = Vec::new();
    for tree in trees {
        stream.push(match tree {
            TokenTree::Ident { name, .. } => proc_macro2::TokenTree::Ident(
                proc_macro2::Ident::new(name, proc_macro2::Span::call_site()),
            ),
            TokenTree::Punct { ch, joint, .. } => {
                let spacing = if *joint {
                    proc_macro2::Spacing::Joint
                } else {
                    proc_macro2::Spacing::Alone
                };
                proc_macro2::TokenTree::Punct(proc_macro2::Punct::new(*ch, spacing))
            }
            TokenTree::Literal { text, .. } => {
                let literal: proc_macro2::Literal = text.parse().unwrap();
                proc_macro2::TokenTree::Literal(literal)
            }
            TokenTree::Group {
                delimiter, stream, ..
            } => proc_macro2::TokenTree::Group(proc_macro2::Group::new(
                delimiter_to(*delimiter),
                stream_of(stream),
            )),
        });
    }
    stream.into_iter().collect()
}

fn text(trees: &[TokenTree]) -> String {
    stream_of(trees).to_string()
}

fn same(source: &str) -> String {
    let stream: proc_macro2::TokenStream = source.parse().unwrap();
    stream.to_string()
}

fn expanded(source: &str) -> String {
    match macro_workshop::seq::seq(&tokens(source)) {
        Ok(trees) => text(&trees),
        Err(Failure::Rejected(errors)) => panic!("rejected: {}", errors[0].message),
        Err(Failure::Exhausted) => panic!("exhausted"),
    }
}

fn rejected(source: &str) -> Vec<ParseError> {
    match macro_workshop::seq::seq(&tokens(source)) {
        Err(Failure::Rejected(errors)) => errors,
        Ok(trees) => panic!("accepted: {}", text(&trees)),
        Err(Failure::Exhausted) => panic!("exhausted"),
    }
}

fn message(source: &str) -> String {
    let errors = rejected(source);
    assert_eq!(errors.len(), 1);
    errors[0].message.clone()
}

#[test]
fn whole_stream_is_repeated_without_a_section() {
    assert_eq!(
        expanded("N in 0..3 { let x = N; }"),
        same("let x = 0; let x = 1; let x = 2;")
    );
}

#[test]
fn inclusive_range_takes_the_upper_bound() {
    assert_eq!(expanded("N in 1..=3 { N }"), same("1 2 3"));
    assert_eq!(expanded("N in 1..3 { N }"), same("1 2"));
    assert_eq!(expanded("N in 3..=3 { N }"), same("3"));
}

#[test]
fn empty_ranges_give_nothing() {
    assert_eq!(expanded("N in 3..3 { N }"), "");
    assert_eq!(expanded("N in 4..3 { N }"), "");
    assert_eq!(expanded("N in 4..=3 { N }"), "");
}

#[test]
fn names_are_pasted() {
    assert_eq!(
        expanded("N in 0..2 { fn f~N() -> u32 { N } }"),
        same("fn f0() -> u32 { 0 } fn f1() -> u32 { 1 }")
    );
}

#[test]
fn only_the_section_is_repeated() {
    assert_eq!(
        expanded("N in 0..3 { enum E { #( V~N, )* } }"),
        same("enum E { V0, V1, V2, }")
    );
}

#[test]
fn section_in_a_nested_group() {
    assert_eq!(
        expanded("I in 1..=2 { f(&[ #( g(I), )* ]); }"),
        same("f(&[ g(1), g(2), ]);")
    );
}

#[test]
fn other_names_and_literals_stay() {
    assert_eq!(
        expanded("N in 0..2 { M + \"N\" + 'N' + N }"),
        same("M + \"N\" + 'N' + 0 M + \"N\" + 'N' + 1")
    );
}

#[test]
fn hexadecimal_bounds_are_read() {
    assert_eq!(expanded("N in 0x0e..0x10 { N }"), same("14 15"));
    assert_eq!(expanded("N in 1_0..1_2u8 { N }"), same("10 11"));
}

#[test]
fn a_piece_has_the_number_once() {
    assert!(matches!(
        macro_workshop::seq::seq(&tokens("N in 0..2 { (N, N) }")),
        Err(Failure::Exhausted)
    ));
    assert_eq!(expanded("N in 0..2 { (N) (N) }"), same("(0) (0) (1) (1)"));
}

#[test]
fn numbers_outside_a_section_are_taken_from_the_range() {
    assert_eq!(expanded("N in 0..3 { N #( a N )* }"), same("0 a 1 a 2"));
    assert!(matches!(
        macro_workshop::seq::seq(&tokens("N in 0..3 { #( a )* N }")),
        Err(Failure::Exhausted)
    ));
    assert_eq!(expanded("N in 0..3 { #( a )* #( b )* }"), same("a a a"));
}

#[test]
fn invisible_groups_are_transparent_before_the_stream() {
    let mut input = tokens("N in");
    input.push(TokenTree::Group {
        delimiter: Delimiter::Invisible,
        stream: tokens("0..=2"),
        span: Span::Source(100),
    });
    input.extend(tokens("{ x~N }"));
    let output = macro_workshop::seq::seq(&input);
    match output {
        Ok(trees) => assert_eq!(text(&trees), same("x0 x1 x2")),
        _ => panic!("refused"),
    }
}

#[test]
fn invisible_groups_in_the_stream_are_kept() {
    let mut body = tokens("type T =");
    body.push(TokenTree::Group {
        delimiter: Delimiter::Invisible,
        stream: tokens("Vec<N>"),
        span: Span::Source(100),
    });
    let mut input = tokens("N in 0..1");
    input.push(TokenTree::Group {
        delimiter: Delimiter::Brace,
        stream: body,
        span: Span::Source(101),
    });
    match macro_workshop::seq::seq(&input) {
        Ok(trees) => {
            assert_eq!(trees.len(), 4);
            match &trees[3] {
                TokenTree::Group {
                    delimiter,
                    stream,
                    span,
                } => {
                    assert_eq!(*delimiter, Delimiter::Invisible);
                    assert_eq!(*span, Span::Source(100));
                    assert_eq!(text(stream), same("Vec<0>"));
                }
                _ => panic!("no group"),
            }
        }
        _ => panic!("refused"),
    }
}

#[test]
fn generated_tokens_point_to_the_call_site() {
    match macro_workshop::seq::seq(&tokens("N in 7..8 { a~N N b }")) {
        Ok(trees) => {
            assert_eq!(trees.len(), 3);
            match &trees[0] {
                TokenTree::Ident { name, span } => {
                    assert_eq!(name, "a7");
                    assert_eq!(*span, Span::CallSite);
                }
                _ => panic!("no name"),
            }
            match &trees[1] {
                TokenTree::Literal { text, span } => {
                    assert_eq!(text, "7");
                    assert_eq!(*span, Span::CallSite);
                }
                _ => panic!("no literal"),
            }
            match &trees[2] {
                TokenTree::Ident { name, span } => {
                    assert_eq!(name, "b");
                    assert!(matches!(span, Span::Source(_)));
                }
                _ => panic!("no name"),
            }
        }
        _ => panic!("refused"),
    }
}

#[test]
fn missing_parts_are_named() {
    assert_eq!(message(""), "unexpected end of input, expected identifier");
    assert_eq!(message("0..3 {}"), "expected identifier");
    assert_eq!(message("N 0..3 {}"), "expected `in`");
    assert_eq!(message("N in"), "unexpected end of input, expected integer literal");
    assert_eq!(message("N in a..3 {}"), "expected integer literal");
    assert_eq!(message("N in 0.5..3 {}"), "expected integer literal");
    assert_eq!(message("N in \"0\"..3 {}"), "expected integer literal");
    assert_eq!(message("N in 0 3 {}"), "expected `..`");
    assert_eq!(message("N in 0 . . 3 {}"), "expected `..`");
    assert_eq!(message("N in 0..{}"), "expected integer literal");
    assert_eq!(message("N in 0..3"), "unexpected end of input, expected curly braces");
    assert_eq!(message("N in 0..3 ()"), "expected curly braces");
    assert_eq!(message("N in 0..3 {} x"), "unexpected token");
}

#[test]
fn keywords_are_no_names() {
    assert_eq!(
        message("in in 0..3 {}"),
        "expected identifier, found keyword `in`"
    );
    assert_eq!(
        message("N in 0..3 { a~fn }"),
        "expected identifier, found keyword `fn`"
    );
    assert_eq!(message("_ in 0..3 {}"), "expected identifier, found keyword `_`");
    assert_eq!(expanded("r#in in 0..2 { r#in }"), same("0 1"));
}

#[test]
fn messages_are_those_of_the_parser() {
    let error = syn::parse_str::<syn::Ident>("in").unwrap_err();
    assert_eq!(message("in in 0..3 {}"), error.to_string());
    let error = syn::parse_str::<syn::Ident>("").unwrap_err();
    assert_eq!(message(""), error.to_string());
    let error = syn::parse_str::<syn::Ident>("0").unwrap_err();
    assert_eq!(message("0..3 {}"), error.to_string());
    let error = syn::parse_str::<syn::LitInt>("a").unwrap_err();
    assert_eq!(message("N in a..3 {}"), error.to_string());
    let error = syn::parse_str::<syn::LitInt>("").unwrap_err();
    assert_eq!(message("N in"), error.to_string());
    let error = syn::parse_str::<syn::LitInt>("1 x").unwrap_err();
    assert_eq!(message("N in 0..3 {} x"), error.to_string());
    let error = syn::parse_str::<syn::LitInt>("99999999999999999999")
        .unwrap()
        .base10_parse::<usize>()
        .unwrap_err();
    assert_eq!(
        message("N in 99999999999999999999..3 {}"),
        error.to_string()
    );
}

#[test]
fn sections_need_a_star() {
    assert_eq!(message("N in 0..3 { #(a) }"), "expected `*`");
    assert_eq!(message("N in 0..3 { #(a) + }"), "expected `*`");
    assert_eq!(message("N in 0..3 { ( #(a) ) }"), "expected `*`");
    assert_eq!(
        message("N in 0..3 { a~ }"),
        "unexpected end of input, expected identifier"
    );
    assert_eq!(message("N in 0..3 { a~1 }"), "expected identifier");
    assert_eq!(expanded("N in 0..2 { # a #[b] }"), same("# a #[b] # a #[b]"));
}

#[test]
fn complaints_point_to_the_token() {
    let errors = rejected("N in 0..3 {} x");
    assert_eq!(errors[0].span, Span::Source(8));
    let errors = rejected("N 0..3 {}");
    assert_eq!(errors[0].span, Span::Source(2));
    let errors = rejected("N in 0..3");
    assert_eq!(errors[0].span, Span::CallSite);
    let errors = rejected("N in 0 , 3 {}");
    assert_eq!(errors[0].message, "expected `..`");
    assert_eq!(errors[0].span, Span::Source(4));
}

#[test]
fn both_bounds_are_complained_of() {
    let errors = rejected("N in 99999999999999999999..-1 {}");
    assert_eq!(errors.len(), 2);
    assert_eq!(errors[0].message, "number too large to fit in target type");
    assert_eq!(errors[0].span, Span::Source(3));
    assert_eq!(errors[1].message, "invalid digit found in string");
    assert_eq!(errors[1].span, Span::Source(6));
    let errors = rejected("N in 0..-1 {}");
    assert_eq!(errors.len(), 1);
    assert_eq!(errors[0].message, "invalid digit found in string");
}

#[test]
fn range_wrapper_counts() {
    let mut range = RangeWrapper::range(2, 4);
    assert_eq!(range.next(), Some(2));
    assert_eq!(range.next(), Some(3));
    assert_eq!(range.next(), None);
    assert_eq!(range.next(), None);
    let mut range = RangeWrapper::inclusive(usize::MAX - 1, usize::MAX);
    assert_eq!(range.next(), Some(usize::MAX - 1));
    assert_eq!(range.next(), Some(usize::MAX));
    assert_eq!(range.next(), None);
    let mut range = RangeWrapper::once(5);
    assert_eq!(range.next(), Some(5));
    assert_eq!(range.next(), None);
    let mut range = RangeWrapper::inclusive(3, 2);
    assert_eq!(range.next(), None);
}

#[test]
fn has_to_expand_looks_into_groups() {
    let raw = |name: &str| {
        SeqTokenTree::Raw(TokenTree::Ident {
            name: name.to_string(),
            span: Span::CallSite,
        })
    };
    let plain = SeqTrees {
        to_expand: false,
        token_trees: vec![raw("a"), SeqTokenTree::Ident(vec!["b".to_string(), "N".to_string()])],
    };
    assert!(!plain.has_to_expand());
    let marked = SeqTrees {
        to_expand: true,
        token_trees: vec![raw("a")],
    };
    assert!(marked.has_to_expand());
    let nested = SeqTrees {
        to_expand: false,
        token_trees: vec![
            raw("a"),
            SeqTokenTree::Group(SeqGroup {
                delimiter: Delimiter::Brace,
                trees: SeqTrees {
                    to_expand: false,
                    token_trees: vec![SeqTokenTree::Trees(SeqTrees {
                        to_expand: true,
                        token_trees: vec![raw("b")],
                    })],
                },
                span: Span::CallSite,
            }),
        ],
    };
    assert!(nested.has_to_expand());
}

#[test]
fn to_token_tree_pastes_with_the_next_number() {
    let piece = SeqTokenTree::Ident(vec!["x".to_string(), "N".to_string(), "N".to_string()]);
    let mut range = RangeWrapper::range(10, 20);
    let out = piece.to_token_tree(&mut range, "N").unwrap();
    assert_eq!(out.len(), 1);
    match &out[0] {
        TokenTree::Ident { name, .. } => assert_eq!(name, "x1011"),
        _ => panic!("no name"),
    }
    assert_eq!(range.next(), Some(12));
    let mut once = RangeWrapper::once(1);
    assert!(piece.to_token_tree(&mut once, "N").is_none());
}
