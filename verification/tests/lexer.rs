use zpaqlpy::error::{CompileError, ErrorKind};
use zpaqlpy::rtok::{
    charstring, endpats, exact_type, group2, group3, group4, group5, group8, is_async, is_name, single_quoted,
    split_lines, token_info, tokenize, triple_quoted, SingleDouble, TokenType,
};
use zpaqlpy::tok::{find_token_for_name, seperate_sections, unescape, Tok, TokKind};

fn kinds(source: &str) -> Vec<String> {
    match tokenize(source) {
        Ok(tokens) => tokens.iter().map(|t| format!("{:?}", t.kind())).collect(),
        Err(e) => panic!("{:?} was refused: {:?}", source, e),
    }
}

fn names(list: &str) -> Vec<String> {
    list.split_whitespace().map(|n| n.to_string()).collect()
}

fn name(location: &str, value: &str) -> Tok {
    Tok::NAME { location: location.to_string(), value: value.to_string() }
}

#[test]
fn an_assignment_is_split_into_its_tokens() {
    let tokens = tokenize("x = 1\n").unwrap();
    assert_eq!(
        tokens,
        vec![
            name("1,0-1,1", "x"),
            Tok::EQUAL { location: "1,2-1,3".to_string(), value: "=".to_string() },
            Tok::NUMBER { location: "1,4-1,5".to_string(), value: 1 },
            Tok::NEWLINE { location: "1,5-1,6".to_string(), value: "\n".to_string() },
            Tok::ENDMARKER { location: "2,0-2,0".to_string(), value: "".to_string() },
        ]
    );
}

#[test]
fn blocks_are_marked_by_indents_and_dedents() {
    assert_eq!(
        kinds("if x:\n  y\n  while y:\n      pass\nz\n"),
        names("NAMEif NAME COLON NEWLINE INDENT NAME NEWLINE NAMEwhile NAME COLON NEWLINE INDENT NAMEpass NEWLINE DEDENT DEDENT NAME NEWLINE ENDMARKER")
    );
}

#[test]
fn blocks_that_are_open_at_the_end_are_closed() {
    assert_eq!(
        kinds("def f(a):\n  return a\n"),
        names("NAMEdef NAME LPAR NAME RPAR COLON NEWLINE INDENT NAMEreturn NAME NEWLINE DEDENT ENDMARKER")
    );
}

#[test]
fn a_line_break_within_brackets_ends_no_statement() {
    assert_eq!(
        kinds("n = len({  # here\n0: \"cm\",\n})\n"),
        names("NAME EQUAL NAME LPAR LBRACE COMMENT NL NUMBER COLON STRING COMMA NL RBRACE RPAR NEWLINE ENDMARKER")
    );
}

#[test]
fn blank_lines_and_comments_end_no_statement() {
    assert_eq!(kinds("\n# a remark\nx\n"), names("NL COMMENT NL NAME NEWLINE ENDMARKER"));
}

#[test]
fn a_backslash_before_the_line_break_continues_the_line() {
    assert_eq!(kinds("x = 1 + \\\n  2\n"), names("NAME EQUAL NUMBER PLUS NUMBER NEWLINE ENDMARKER"));
}

#[test]
fn operators_are_told_apart() {
    assert_eq!(
        kinds("a += b << 2 >= c // d ** e != ~f\n"),
        names("NAME PLUSEQUAL NAME LEFTSHIFT NUMBER GREATEREQUAL NAME DOUBLESLASH NAME DOUBLESTAR NAME NOTEQUAL TILDE NAME NEWLINE ENDMARKER")
    );
    assert_eq!(
        kinds("a[1] = (b - c) * d / e % f | g & h ^ i < j > k == l <= m;\n"),
        names("NAME LSQB NUMBER RSQB EQUAL LPAR NAME MINUS NAME RPAR STAR NAME SLASH NAME PERCENT NAME VBAR NAME AMPER NAME CIRCUMFLEX NAME LESS NAME GREATER NAME EQEQUAL NAME LESSEQUAL NAME SEMI NEWLINE ENDMARKER")
    );
}

#[test]
fn keywords_are_told_apart_from_names() {
    assert_eq!(
        kinds("not a and b or c in d is None, True, False\n"),
        names("NAMEnot NAME NAMEand NAME NAMEor NAME NAMEin NAME NAMEis NAMENone COMMA NAMETrue COMMA NAMEFalse NEWLINE ENDMARKER")
    );
    assert_eq!(
        kinds("global a\nnonlocal b\nbreak\ncontinue\n"),
        names("NAMEglobal NAME NEWLINE NAMEnonlocal NAME NEWLINE NAMEbreak NEWLINE NAMEcontinue NEWLINE ENDMARKER")
    );
}

#[test]
fn numbers_are_decimal_or_hexadecimal() {
    let tokens = tokenize("0 7 4294967295 0x10 0xff\n").unwrap();
    let values: Vec<u32> = tokens
        .iter()
        .filter_map(|t| match t {
            Tok::NUMBER { value, .. } => Some(*value),
            _ => None,
        })
        .collect();
    assert_eq!(values, vec![0, 7, 4294967295, 16, 255]);
}

#[test]
fn a_number_of_more_than_32_bits_is_refused() {
    assert_eq!(tokenize("x = 4294967296\n").err(), Some(CompileError::BadNumber));
    assert_eq!(CompileError::BadNumber.kind(), ErrorKind::Lex);
}

#[test]
fn strings_lose_their_quotes_and_escapes() {
    let tokens = tokenize("a = \"cm 19 22\"\nb = 'it\\'s\\n'\nc = \"\"\n").unwrap();
    let values: Vec<String> = tokens
        .iter()
        .filter_map(|t| match t {
            Tok::STRING { value, .. } => Some(value.clone()),
            _ => None,
        })
        .collect();
    assert_eq!(values, vec!["cm 19 22".to_string(), "it's\n".to_string(), "".to_string()]);
}

#[test]
fn a_string_in_three_quotes_spans_lines_and_loses_its_outer_quotes() {
    let source = "x = \"\"\"one\ntwo\"\"\"\ny\n";
    assert_eq!(kinds(source), names("NAME EQUAL STRING NEWLINE NAME NEWLINE ENDMARKER"));
    let tokens = tokenize(source).unwrap();
    assert_eq!(tokens[2], Tok::STRING { location: "1,4-2,6".to_string(), value: "\"\"one\ntwo\"\"".to_string() });
}

#[test]
fn a_string_that_does_not_end_is_refused() {
    assert_eq!(tokenize("x = \"\"\"one\ntwo\n").err(), Some(CompileError::EofInString));
    assert_eq!(CompileError::EofInString.kind(), ErrorKind::Lex);
}

#[test]
fn a_bracket_that_is_not_closed_is_refused() {
    assert_eq!(tokenize("x = (1,\n").err(), Some(CompileError::EofInStatement));
    assert_eq!(tokenize("x = 1 + \\\n").err(), Some(CompileError::EofInStatement));
}

#[test]
fn a_dedent_to_a_column_that_was_not_seen_is_refused() {
    assert_eq!(tokenize("if x:\n    y\n  z\n").err(), Some(CompileError::Unindent));
    assert_eq!(CompileError::Unindent.kind(), ErrorKind::Lex);
}

#[test]
fn an_empty_text_has_the_end_mark_only() {
    assert_eq!(kinds(""), names("ENDMARKER"));
}

#[test]
fn locations_count_lines_from_one_and_columns_from_zero() {
    let tokens = tokenize("a\n  bc = 10\n").unwrap();
    assert_eq!(tokens[0].location(), "1,0-1,1");
    let bc = tokens.iter().find(|t| matches!(t, Tok::NAME { value, .. } if value == "bc")).unwrap();
    assert_eq!(bc.location(), "2,2-2,4");
    let ten = tokens.iter().find(|t| matches!(t, Tok::NUMBER { .. })).unwrap();
    assert_eq!(ten.location(), "2,7-2,9");
}

#[test]
fn patterns_are_grouped_with_bars() {
    assert_eq!(group2("a", "b"), "(a|b)");
    assert_eq!(group3("a", "b", "c"), "(a|b|c)");
    assert_eq!(group4("a", "b", "c", "d"), "(a|b|c|d)");
    assert_eq!(group5("a", "b", "c", "d", "e"), "(a|b|c|d|e)");
    assert_eq!(group8("a", "b", "c", "d", "e", "f", "g", "h"), "(a|b|c|d|e|f|g|h)");
    assert_eq!(group2("", "x+"), "(|x+)");
}

#[test]
fn characters_make_a_string() {
    assert_eq!(charstring(&['a', 'ü', '\n']), "aü\n");
    assert_eq!(charstring(&[]), "");
}

#[test]
fn an_operator_has_its_exact_kind() {
    assert_eq!(exact_type(TokenType::OP, "("), TokenType::LPAR);
    assert_eq!(exact_type(TokenType::OP, ">>="), TokenType::RIGHTSHIFTEQUAL);
    assert_eq!(exact_type(TokenType::OP, "**"), TokenType::DOUBLESTAR);
    assert_eq!(exact_type(TokenType::OP, "->"), TokenType::OP);
    assert_eq!(exact_type(TokenType::NAME, "("), TokenType::NAME);
    assert_eq!(exact_type(TokenType::NUMBER, "+"), TokenType::NUMBER);
}

#[test]
fn openings_of_strings_are_recognised() {
    assert!(triple_quoted("'''"));
    assert!(triple_quoted("rb\"\"\""));
    assert!(!triple_quoted("'"));
    assert!(!triple_quoted("x'''"));
    assert!(single_quoted("'"));
    assert!(single_quoted("Br\""));
    assert!(!single_quoted("'''"));
    assert!(!single_quoted("\"\""));
}

#[test]
fn a_string_ends_with_the_quotes_it_opens_with() {
    assert_eq!(endpats("'"), Ok(Some(SingleDouble::Single)));
    assert_eq!(endpats("\""), Ok(Some(SingleDouble::Double)));
    assert_eq!(endpats("'''"), Ok(Some(SingleDouble::Single3)));
    assert_eq!(endpats("rb\"\"\""), Ok(Some(SingleDouble::Double3)));
    assert_eq!(endpats("r"), Ok(None));
    assert_eq!(endpats("B"), Ok(None));
    assert_eq!(endpats("x"), Err(CompileError::BadStringPrefix));
    assert_eq!(CompileError::BadStringPrefix.kind(), ErrorKind::Lex);
}

#[test]
fn a_text_is_split_behind_its_line_breaks() {
    let lines: Vec<String> = split_lines("a\nbc\n\nd").iter().map(|l| l.iter().collect()).collect();
    assert_eq!(lines, vec!["a\n", "bc\n", "\n", "d"]);
    assert!(split_lines("").is_empty());
}

#[test]
fn a_token_is_made_of_kind_text_and_place() {
    assert_eq!(token_info(TokenType::NAME, "while", (3, 4), (3, 9)), Ok(Tok::NAMEwhile {
        location: "3,4-3,9".to_string(),
        value: "while".to_string()
    }));
    assert_eq!(token_info(TokenType::OP, "+=", (1, 0), (1, 2)), Ok(Tok::PLUSEQUAL {
        location: "1,0-1,2".to_string(),
        value: "+=".to_string()
    }));
    assert_eq!(token_info(TokenType::NUMBER, "0x1F", (1, 0), (1, 4)), Ok(Tok::NUMBER {
        location: "1,0-1,4".to_string(),
        value: 31
    }));
    assert_eq!(token_info(TokenType::NUMBER, "1.5", (1, 0), (1, 3)), Err(CompileError::BadNumber));
}

#[test]
fn names_and_the_word_async_are_recognised() {
    assert!(is_name(&name("1,0-1,1", "x")));
    assert!(!is_name(&Tok::NUMBER { location: "1,0-1,1".to_string(), value: 1 }));
    assert!(is_async(&name("1,0-1,5", "async")));
    assert!(!is_async(&name("1,0-1,5", "await")));
}

#[test]
fn tokens_are_found_by_their_names() {
    assert_eq!(find_token_for_name("NAME", "1,0-1,2", "if"), Ok(Tok::NAMEif {
        location: "1,0-1,2".to_string(),
        value: "if".to_string()
    }));
    assert_eq!(find_token_for_name("NAME", "1,0-1,2", "iff"), Ok(name("1,0-1,2", "iff")));
    assert_eq!(find_token_for_name("STRING", "1,0-1,4", "'a\\tb'"), Ok(Tok::STRING {
        location: "1,0-1,4".to_string(),
        value: "a\tb".to_string()
    }));
    assert_eq!(find_token_for_name("NUMBER", "1,0-1,2", "12"), Ok(Tok::NUMBER {
        location: "1,0-1,2".to_string(),
        value: 12
    }));
    assert_eq!(find_token_for_name("NUMBER", "1,0-1,2", "1e"), Err(CompileError::BadNumber));
    assert_eq!(find_token_for_name("NOSUCH", "1,0-1,2", "x"), Err(CompileError::UnknownToken));
    assert_eq!(CompileError::UnknownToken.kind(), ErrorKind::Lex);
}

#[test]
fn escapes_are_decoded() {
    assert_eq!(unescape("a\\nb"), "a\nb");
    assert_eq!(unescape("\\t\\'\\\""), "\t'\"");
    assert_eq!(unescape("plain"), "plain");
}

fn comment(text: &str) -> Tok {
    Tok::COMMENT { location: "1,0-1,1".to_string(), value: text.to_string() }
}

#[test]
fn the_first_section_goes_to_both_programs() {
    let tokens = vec![
        name("0", "before"),
        comment("### BEGIN OF EDITABLE SECTION one"),
        name("1", "shared"),
        comment("# a remark"),
        Tok::NL { location: "1".to_string(), value: "\n".to_string() },
        comment("### END OF EDITABLE SECTION"),
        name("2", "between"),
        comment("### BEGIN OF EDITABLE SECTION two"),
        name("3", "first"),
        comment("### END OF EDITABLE SECTION"),
        comment("### BEGIN OF EDITABLE SECTION three"),
        name("4", "second"),
        comment("### END OF EDITABLE SECTION"),
        name("5", "after"),
    ];
    let (hcomp, pcomp) = seperate_sections(tokens).unwrap();
    assert_eq!(hcomp, vec![name("1", "shared"), name("3", "first")]);
    assert_eq!(pcomp, vec![name("1", "shared"), name("4", "second")]);
}

#[test]
fn a_text_with_fewer_than_three_sections_is_refused() {
    let tokens = vec![
        comment("### BEGIN OF EDITABLE SECTION one"),
        name("1", "shared"),
        comment("### END OF EDITABLE SECTION"),
        comment("### BEGIN OF EDITABLE SECTION two"),
        name("3", "first"),
        comment("### END OF EDITABLE SECTION"),
    ];
    assert_eq!(seperate_sections(tokens), Err(CompileError::BadSections));
    assert_eq!(seperate_sections(vec![]), Err(CompileError::BadSections));
}

#[test]
fn a_section_that_is_not_closed_is_refused() {
    let tokens = vec![
        comment("### BEGIN OF EDITABLE SECTION one"),
        comment("### END OF EDITABLE SECTION"),
        comment("### BEGIN OF EDITABLE SECTION two"),
        comment("### END OF EDITABLE SECTION"),
        comment("### BEGIN OF EDITABLE SECTION three"),
        name("4", "second"),
    ];
    assert_eq!(seperate_sections(tokens), Err(CompileError::BadSections));
}
