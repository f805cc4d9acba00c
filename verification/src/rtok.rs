//! The lexer: from a source text to tokens, with indents and dedents.

use vstd::prelude::*;
use vstd::string::*;
use crate::error::CompileError;
use crate::text::{
    chars_eq, chars_of, decimal, has_prefix_at, push_char, push_decimal, push_text, slice_of, starts_with,
    string_of, text_is,
};
use crate::tok::{find_token_for_name, token_for, tok_views, Tok, TokKind, TokView};

verus! {

/// A compiled pattern of the crate `regex`.
#[verifier::external_type_specification]
#[verifier::external_body]
pub struct ExRegex(regex::Regex);

/// The error with which the crate `regex` refuses a pattern.
#[verifier::external_type_specification]
#[verifier::external_body]
pub struct ExRegexError(regex::Error);

/// The pattern that a compiled pattern was made from.
pub uninterp spec fn pattern_of(re: regex::Regex) -> Seq<char>;

/// Whether the crate `regex` accepts the pattern.
pub uninterp spec fn pattern_accepted(pattern: Seq<char>) -> bool;

/// What a group holds in the leftmost match of the pattern in the text:
/// nothing where the pattern does not match or the group takes no part in
/// the match. The group 0 is the whole match.
pub uninterp spec fn capture_of(pattern: Seq<char>, text: Seq<char>, group: int) -> Option<Seq<char>>;

/// Compiles a pattern with `regex::Regex::new`. The call succeeds for the
/// patterns that the crate accepts, and the compiled pattern stands for
/// the text it was made from, which `Regex::as_str` gives back.
#[verifier::external_body]
fn compile(pattern: &str) -> (r: Result<regex::Regex, regex::Error>)
    ensures
        r is Ok == pattern_accepted(pattern@),
        r matches Ok(re) ==> pattern_of(re) == pattern@,
{
    regex::Regex::new(pattern)
}

/// Searches a text with `regex::Regex::captures` and takes the text of a
/// group of the match with `Captures::get` and `Match::as_str`. The result
/// depends on the pattern, the text and the number of the group alone.
#[verifier::external_body]
fn capture(re: &regex::Regex, text: &str, group: usize) -> (r: Option<String>)
    ensures
        (match r {
            Some(s) => Some(s@),
            None => None,
        }) == capture_of(pattern_of(*re), text@, group as int),
{
    match re.captures(text) {
        Some(c) => match c.get(group) {
            Some(m) => Some(m.as_str().to_string()),
            None => None,
        },
        None => None,
    }
}

/// `(a|b)`
pub open spec fn either2(a: Seq<char>, b: Seq<char>) -> Seq<char> {
    "("@ + a + "|"@ + b + ")"@
}

/// `(a|b|c)`
pub open spec fn either3(a: Seq<char>, b: Seq<char>, c: Seq<char>) -> Seq<char> {
    "("@ + a + "|"@ + b + "|"@ + c + ")"@
}

/// A pattern for one of two patterns.
pub fn group2(a: &str, b: &str) -> (s: String)
    ensures
        s@ == either2(a@, b@),
{
    let mut s = String::from_str("(");
    push_text(&mut s, a);
    push_text(&mut s, "|");
    push_text(&mut s, b);
    push_text(&mut s, ")");
    s
}

/// A pattern for one of three patterns.
pub fn group3(a: &str, b: &str, c: &str) -> (s: String)
    ensures
        s@ == either3(a@, b@, c@),
{
    let mut s = String::from_str("(");
    push_text(&mut s, a);
    push_text(&mut s, "|");
    push_text(&mut s, b);
    push_text(&mut s, "|");
    push_text(&mut s, c);
    push_text(&mut s, ")");
    s
}

/// The string made of the given characters.
pub fn charstring(chars: &[char]) -> (s: String)
    ensures
        s@ == chars@,
{
    string_of(chars)
}

/// The kinds of tokens that the lexer tells apart.
#[derive(Debug, Clone, Copy, PartialEq, Eq, Structural)]
#[allow(non_camel_case_types)]
pub enum TokenType {
    ENDMARKER,
    NAME,
    NUMBER,
    STRING,
    NEWLINE,
    INDENT,
    DEDENT,
    LPAR,
    RPAR,
    LSQB,
    RSQB,
    COLON,
    COMMA,
    SEMI,
    PLUS,
    MINUS,
    STAR,
    SLASH,
    VBAR,
    AMPER,
    LESS,
    GREATER,
    EQUAL,
    DOT,
    PERCENT,
    LBRACE,
    RBRACE,
    EQEQUAL,
    NOTEQUAL,
    LESSEQUAL,
    GREATEREQUAL,
    TILDE,
    CIRCUMFLEX,
    LEFTSHIFT,
    RIGHTSHIFT,
    DOUBLESTAR,
    PLUSEQUAL,
    MINEQUAL,
    STAREQUAL,
    SLASHEQUAL,
    PERCENTEQUAL,
    AMPEREQUAL,
    VBAREQUAL,
    CIRCUMFLEXEQUAL,
    LEFTSHIFTEQUAL,
    RIGHTSHIFTEQUAL,
    DOUBLESTAREQUAL,
    DOUBLESLASH,
    DOUBLESLASHEQUAL,
    AT,
    ATEQUAL,
    RARROW,
    ELLIPSIS,
    OP,
    AWAIT,
    ASYNC,
    ERRORTOKEN,
    COMMENT,
    NL,
    ENCODING,
}

impl TokenType {
    /// The name of the kind.
    pub open spec fn name(self) -> Seq<char> {
        match self {
            TokenType::ENDMARKER => "ENDMARKER"@,
            TokenType::NAME => "NAME"@,
            TokenType::NUMBER => "NUMBER"@,
            TokenType::STRING => "STRING"@,
            TokenType::NEWLINE => "NEWLINE"@,
            TokenType::INDENT => "INDENT"@,
            TokenType::DEDENT => "DEDENT"@,
            TokenType::LPAR => "LPAR"@,
            TokenType::RPAR => "RPAR"@,
            TokenType::LSQB => "LSQB"@,
            TokenType::RSQB => "RSQB"@,
            TokenType::COLON => "COLON"@,
            TokenType::COMMA => "COMMA"@,
            TokenType::SEMI => "SEMI"@,
            TokenType::PLUS => "PLUS"@,
            TokenType::MINUS => "MINUS"@,
            TokenType::STAR => "STAR"@,
            TokenType::SLASH => "SLASH"@,
            TokenType::VBAR => "VBAR"@,
            TokenType::AMPER => "AMPER"@,
            TokenType::LESS => "LESS"@,
            TokenType::GREATER => "GREATER"@,
            TokenType::EQUAL => "EQUAL"@,
            TokenType::DOT => "DOT"@,
            TokenType::PERCENT => "PERCENT"@,
            TokenType::LBRACE => "LBRACE"@,
            TokenType::RBRACE => "RBRACE"@,
            TokenType::EQEQUAL => "EQEQUAL"@,
            TokenType::NOTEQUAL => "NOTEQUAL"@,
            TokenType::LESSEQUAL => "LESSEQUAL"@,
            TokenType::GREATEREQUAL => "GREATEREQUAL"@,
            TokenType::TILDE => "TILDE"@,
            TokenType::CIRCUMFLEX => "CIRCUMFLEX"@,
            TokenType::LEFTSHIFT => "LEFTSHIFT"@,
            TokenType::RIGHTSHIFT => "RIGHTSHIFT"@,
            TokenType::DOUBLESTAR => "DOUBLESTAR"@,
            TokenType::PLUSEQUAL => "PLUSEQUAL"@,
            TokenType::MINEQUAL => "MINEQUAL"@,
            TokenType::STAREQUAL => "STAREQUAL"@,
            TokenType::SLASHEQUAL => "SLASHEQUAL"@,
            TokenType::PERCENTEQUAL => "PERCENTEQUAL"@,
            TokenType::AMPEREQUAL => "AMPEREQUAL"@,
            TokenType::VBAREQUAL => "VBAREQUAL"@,
            TokenType::CIRCUMFLEXEQUAL => "CIRCUMFLEXEQUAL"@,
            TokenType::LEFTSHIFTEQUAL => "LEFTSHIFTEQUAL"@,
            TokenType::RIGHTSHIFTEQUAL => "RIGHTSHIFTEQUAL"@,
            TokenType::DOUBLESTAREQUAL => "DOUBLESTAREQUAL"@,
            TokenType::DOUBLESLASH => "DOUBLESLASH"@,
            TokenType::DOUBLESLASHEQUAL => "DOUBLESLASHEQUAL"@,
            TokenType::AT => "AT"@,
            TokenType::ATEQUAL => "ATEQUAL"@,
            TokenType::RARROW => "RARROW"@,
            TokenType::ELLIPSIS => "ELLIPSIS"@,
            TokenType::OP => "OP"@,
            TokenType::AWAIT => "AWAIT"@,
            TokenType::ASYNC => "ASYNC"@,
            TokenType::ERRORTOKEN => "ERRORTOKEN"@,
            TokenType::COMMENT => "COMMENT"@,
            TokenType::NL => "NL"@,
            TokenType::ENCODING => "ENCODING"@,
        }
    }

    /// The name of the kind.
    pub fn to_string(&self) -> (s: String)
        ensures
            s@ == self.name(),
    {
        match self {
            TokenType::ENDMARKER => String::from_str("ENDMARKER"),
            TokenType::NAME => String::from_str("NAME"),
            TokenType::NUMBER => String::from_str("NUMBER"),
            TokenType::STRING => String::from_str("STRING"),
            TokenType::NEWLINE => String::from_str("NEWLINE"),
            TokenType::INDENT => String::from_str("INDENT"),
            TokenType::DEDENT => String::from_str("DEDENT"),
            TokenType::LPAR => String::from_str("LPAR"),
            TokenType::RPAR => String::from_str("RPAR"),
            TokenType::LSQB => String::from_str("LSQB"),
            TokenType::RSQB => String::from_str("RSQB"),
            TokenType::COLON => String::from_str("COLON"),
            TokenType::COMMA => String::from_str("COMMA"),
            TokenType::SEMI => String::from_str("SEMI"),
            TokenType::PLUS => String::from_str("PLUS"),
            TokenType::MINUS => String::from_str("MINUS"),
            TokenType::STAR => String::from_str("STAR"),
            TokenType::SLASH => String::from_str("SLASH"),
            TokenType::VBAR => String::from_str("VBAR"),
            TokenType::AMPER => String::from_str("AMPER"),
            TokenType::LESS => String::from_str("LESS"),
            TokenType::GREATER => String::from_str("GREATER"),
            TokenType::EQUAL => String::from_str("EQUAL"),
            TokenType::DOT => String::from_str("DOT"),
            TokenType::PERCENT => String::from_str("PERCENT"),
            TokenType::LBRACE => String::from_str("LBRACE"),
            TokenType::RBRACE => String::from_str("RBRACE"),
            TokenType::EQEQUAL => String::from_str("EQEQUAL"),
            TokenType::NOTEQUAL => String::from_str("NOTEQUAL"),
            TokenType::LESSEQUAL => String::from_str("LESSEQUAL"),
            TokenType::GREATEREQUAL => String::from_str("GREATEREQUAL"),
            TokenType::TILDE => String::from_str("TILDE"),
            TokenType::CIRCUMFLEX => String::from_str("CIRCUMFLEX"),
            TokenType::LEFTSHIFT => String::from_str("LEFTSHIFT"),
            TokenType::RIGHTSHIFT => String::from_str("RIGHTSHIFT"),
            TokenType::DOUBLESTAR => String::from_str("DOUBLESTAR"),
            TokenType::PLUSEQUAL => String::from_str("PLUSEQUAL"),
            TokenType::MINEQUAL => String::from_str("MINEQUAL"),
            TokenType::STAREQUAL => String::from_str("STAREQUAL"),
            TokenType::SLASHEQUAL => String::from_str("SLASHEQUAL"),
            TokenType::PERCENTEQUAL => String::from_str("PERCENTEQUAL"),
            TokenType::AMPEREQUAL => String::from_str("AMPEREQUAL"),
            TokenType::VBAREQUAL => String::from_str("VBAREQUAL"),
            TokenType::CIRCUMFLEXEQUAL => String::from_str("CIRCUMFLEXEQUAL"),
            TokenType::LEFTSHIFTEQUAL => String::from_str("LEFTSHIFTEQUAL"),
            TokenType::RIGHTSHIFTEQUAL => String::from_str("RIGHTSHIFTEQUAL"),
            TokenType::DOUBLESTAREQUAL => String::from_str("DOUBLESTAREQUAL"),
            TokenType::DOUBLESLASH => String::from_str("DOUBLESLASH"),
            TokenType::DOUBLESLASHEQUAL => String::from_str("DOUBLESLASHEQUAL"),
            TokenType::AT => String::from_str("AT"),
            TokenType::ATEQUAL => String::from_str("ATEQUAL"),
            TokenType::RARROW => String::from_str("RARROW"),
            TokenType::ELLIPSIS => String::from_str("ELLIPSIS"),
            TokenType::OP => String::from_str("OP"),
            TokenType::AWAIT => String::from_str("AWAIT"),
            TokenType::ASYNC => String::from_str("ASYNC"),
            TokenType::ERRORTOKEN => String::from_str("ERRORTOKEN"),
            TokenType::COMMENT => String::from_str("COMMENT"),
            TokenType::NL => String::from_str("NL"),
            TokenType::ENCODING => String::from_str("ENCODING"),
        }
    }
}

/// The kind of an operator or a delimiter, by its text.
pub open spec fn operator_type(content: Seq<char>) -> Option<TokenType> {
    if content == "("@ {
        Some(TokenType::LPAR)
    } else if content == ")"@ {
        Some(TokenType::RPAR)
    } else if content == "["@ {
        Some(TokenType::LSQB)
    } else if content == "]"@ {
        Some(TokenType::RSQB)
    } else if content == ":"@ {
        Some(TokenType::COLON)
    } else if content == ","@ {
        Some(TokenType::COMMA)
    } else if content == ";"@ {
        Some(TokenType::SEMI)
    } else if content == "+"@ {
        Some(TokenType::PLUS)
    } else if content == "-"@ {
        Some(TokenType::MINUS)
    } else if content == "*"@ {
        Some(TokenType::STAR)
    } else if content == "/"@ {
        Some(TokenType::SLASH)
    } else if content == "|"@ {
        Some(TokenType::VBAR)
    } else if content == "&"@ {
        Some(TokenType::AMPER)
    } else if content == "<"@ {
        Some(TokenType::LESS)
    } else if content == ">"@ {
        Some(TokenType::GREATER)
    } else if content == "="@ {
        Some(TokenType::EQUAL)
    } else if content == "."@ {
        Some(TokenType::DOT)
    } else if content == "%"@ {
        Some(TokenType::PERCENT)
    } else if content == "{"@ {
        Some(TokenType::LBRACE)
    } else if content == "}"@ {
        Some(TokenType::RBRACE)
    } else if content == "=="@ {
        Some(TokenType::EQEQUAL)
    } else if content == "!="@ {
        Some(TokenType::NOTEQUAL)
    } else if content == "<="@ {
        Some(TokenType::LESSEQUAL)
    } else if content == ">="@ {
        Some(TokenType::GREATEREQUAL)
    } else if content == "~"@ {
        Some(TokenType::TILDE)
    } else if content == "^"@ {
        Some(TokenType::CIRCUMFLEX)
    } else if content == "<<"@ {
        Some(TokenType::LEFTSHIFT)
    } else if content == ">>"@ {
        Some(TokenType::RIGHTSHIFT)
    } else if content == "**"@ {
        Some(TokenType::DOUBLESTAR)
    } else if content == "+="@ {
        Some(TokenType::PLUSEQUAL)
    } else if content == "-="@ {
        Some(TokenType::MINEQUAL)
    } else if content == "*="@ {
        Some(TokenType::STAREQUAL)
    } else if content == "/="@ {
        Some(TokenType::SLASHEQUAL)
    } else if content == "%="@ {
        Some(TokenType::PERCENTEQUAL)
    } else if content == "&="@ {
        Some(TokenType::AMPEREQUAL)
    } else if content == "|="@ {
        Some(TokenType::VBAREQUAL)
    } else if content == "^="@ {
        Some(TokenType::CIRCUMFLEXEQUAL)
    } else if content == "<<="@ {
        Some(TokenType::LEFTSHIFTEQUAL)
    } else if content == ">>="@ {
        Some(TokenType::RIGHTSHIFTEQUAL)
    } else if content == "**="@ {
        Some(TokenType::DOUBLESTAREQUAL)
    } else if content == "//"@ {
        Some(TokenType::DOUBLESLASH)
    } else if content == "//="@ {
        Some(TokenType::DOUBLESLASHEQUAL)
    } else if content == "@"@ {
        Some(TokenType::AT)
    } else if content == "@="@ {
        Some(TokenType::ATEQUAL)
    } else {
        None
    }
}

/// The exact kind of a token: an operator has the kind of its text, where
/// there is one.
pub open spec fn exact_type_of(typ: TokenType, content: Seq<char>) -> TokenType {
    if typ == TokenType::OP {
        match operator_type(content) {
            Some(t) => t,
            None => typ,
        }
    } else {
        typ
    }
}

/// The exact kind of a token.
pub fn exact_type(typ: TokenType, content: &str) -> (t: TokenType)
    ensures
        t == exact_type_of(typ, content@),
{
    match typ {
        TokenType::OP => {
            if text_is(content, "(") {
                TokenType::LPAR
            } else if text_is(content, ")") {
                TokenType::RPAR
            } else if text_is(content, "[") {
                TokenType::LSQB
            } else if text_is(content, "]") {
                TokenType::RSQB
            } else if text_is(content, ":") {
                TokenType::COLON
            } else if text_is(content, ",") {
                TokenType::COMMA
            } else if text_is(content, ";") {
                TokenType::SEMI
            } else if text_is(content, "+") {
                TokenType::PLUS
            } else if text_is(content, "-") {
                TokenType::MINUS
            } else if text_is(content, "*") {
                TokenType::STAR
            } else if text_is(content, "/") {
                TokenType::SLASH
            } else if text_is(content, "|") {
                TokenType::VBAR
            } else if text_is(content, "&") {
                TokenType::AMPER
            } else if text_is(content, "<") {
                TokenType::LESS
            } else if text_is(content, ">") {
                TokenType::GREATER
            } else if text_is(content, "=") {
                TokenType::EQUAL
            } else if text_is(content, ".") {
                TokenType::DOT
            } else if text_is(content, "%") {
                TokenType::PERCENT
            } else if text_is(content, "{") {
                TokenType::LBRACE
            } else if text_is(content, "}") {
                TokenType::RBRACE
            } else if text_is(content, "==") {
                TokenType::EQEQUAL
            } else if text_is(content, "!=") {
                TokenType::NOTEQUAL
            } else if text_is(content, "<=") {
                TokenType::LESSEQUAL
            } else if text_is(content, ">=") {
                TokenType::GREATEREQUAL
            } else if text_is(content, "~") {
                TokenType::TILDE
            } else if text_is(content, "^") {
                TokenType::CIRCUMFLEX
            } else if text_is(content, "<<") {
                TokenType::LEFTSHIFT
            } else if text_is(content, ">>") {
                TokenType::RIGHTSHIFT
            } else if text_is(content, "**") {
                TokenType::DOUBLESTAR
            } else if text_is(content, "+=") {
                TokenType::PLUSEQUAL
            } else if text_is(content, "-=") {
                TokenType::MINEQUAL
            } else if text_is(content, "*=") {
                TokenType::STAREQUAL
            } else if text_is(content, "/=") {
                TokenType::SLASHEQUAL
            } else if text_is(content, "%=") {
                TokenType::PERCENTEQUAL
            } else if text_is(content, "&=") {
                TokenType::AMPEREQUAL
            } else if text_is(content, "|=") {
                TokenType::VBAREQUAL
            } else if text_is(content, "^=") {
                TokenType::CIRCUMFLEXEQUAL
            } else if text_is(content, "<<=") {
                TokenType::LEFTSHIFTEQUAL
            } else if text_is(content, ">>=") {
                TokenType::RIGHTSHIFTEQUAL
            } else if text_is(content, "**=") {
                TokenType::DOUBLESTAREQUAL
            } else if text_is(content, "//") {
                TokenType::DOUBLESLASH
            } else if text_is(content, "//=") {
                TokenType::DOUBLESLASHEQUAL
            } else if text_is(content, "@") {
                TokenType::AT
            } else if text_is(content, "@=") {
                TokenType::ATEQUAL
            } else {
                typ
            }
        },
        _ => typ,
    }
}

/// Whether the text opens a string in three quotes, with or without a
/// prefix.
pub open spec fn is_triple_quoted(t: Seq<char>) -> bool {
    t == "'''"@ || t == "\"\"\""@ || t == "r'''"@ || t == "r\"\"\""@ || t == "R'''"@ || t == "R\"\"\""@ || t == "b'''"@ || t == "b\"\"\""@ || t == "B'''"@ || t == "B\"\"\""@ || t == "br'''"@ || t == "br\"\"\""@ || t == "Br'''"@ || t == "Br\"\"\""@ || t == "bR'''"@ || t == "bR\"\"\""@ || t == "BR'''"@ || t == "BR\"\"\""@ || t == "rb'''"@ || t == "rb\"\"\""@ || t == "rB'''"@ || t == "rB\"\"\""@ || t == "Rb'''"@ || t == "Rb\"\"\""@ || t == "RB'''"@ || t == "RB\"\"\""@ || t == "u'''"@ || t == "u\"\"\""@ || t == "U'''"@ || t == "U\"\"\""@
}

/// Whether the text opens a string in one quote, with or without a
/// prefix.
pub open spec fn is_single_quoted(t: Seq<char>) -> bool {
    t == "'"@ || t == "\""@ || t == "r'"@ || t == "r\""@ || t == "R'"@ || t == "R\""@ || t == "b'"@ || t == "b\""@ || t == "B'"@ || t == "B\""@ || t == "br'"@ || t == "br\""@ || t == "Br'"@ || t == "Br\""@ || t == "bR'"@ || t == "bR\""@ || t == "BR'"@ || t == "BR\""@ || t == "rb'"@ || t == "rb\""@ || t == "rB'"@ || t == "rB\""@ || t == "Rb'"@ || t == "Rb\""@ || t == "RB'"@ || t == "RB\""@ || t == "u'"@ || t == "u\""@ || t == "U'"@ || t == "U\""@
}

/// Whether the text opens a string in three quotes.
pub fn triple_quoted(t: &str) -> (b: bool)
    ensures
        b == is_triple_quoted(t@),
{
    text_is(t, "'''") || text_is(t, "\"\"\"") || text_is(t, "r'''") || text_is(t, "r\"\"\"") || text_is(t, "R'''") || text_is(t, "R\"\"\"") || text_is(t, "b'''") || text_is(t, "b\"\"\"") || text_is(t, "B'''") || text_is(t, "B\"\"\"") || text_is(t, "br'''") || text_is(t, "br\"\"\"") || text_is(t, "Br'''") || text_is(t, "Br\"\"\"") || text_is(t, "bR'''") || text_is(t, "bR\"\"\"") || text_is(t, "BR'''") || text_is(t, "BR\"\"\"") || text_is(t, "rb'''") || text_is(t, "rb\"\"\"") || text_is(t, "rB'''") || text_is(t, "rB\"\"\"") || text_is(t, "Rb'''") || text_is(t, "Rb\"\"\"") || text_is(t, "RB'''") || text_is(t, "RB\"\"\"") || text_is(t, "u'''") || text_is(t, "u\"\"\"") || text_is(t, "U'''") || text_is(t, "U\"\"\"")
}

/// Whether the text opens a string in one quote.
pub fn single_quoted(t: &str) -> (b: bool)
    ensures
        b == is_single_quoted(t@),
{
    text_is(t, "'") || text_is(t, "\"") || text_is(t, "r'") || text_is(t, "r\"") || text_is(t, "R'") || text_is(t, "R\"") || text_is(t, "b'") || text_is(t, "b\"") || text_is(t, "B'") || text_is(t, "B\"") || text_is(t, "br'") || text_is(t, "br\"") || text_is(t, "Br'") || text_is(t, "Br\"") || text_is(t, "bR'") || text_is(t, "bR\"") || text_is(t, "BR'") || text_is(t, "BR\"") || text_is(t, "rb'") || text_is(t, "rb\"") || text_is(t, "rB'") || text_is(t, "rB\"") || text_is(t, "Rb'") || text_is(t, "Rb\"") || text_is(t, "RB'") || text_is(t, "RB\"") || text_is(t, "u'") || text_is(t, "u\"") || text_is(t, "U'") || text_is(t, "U\"")
}

/// The quotes that end a string.
#[derive(Debug, Clone, Copy, PartialEq, Eq, Structural)]
pub enum SingleDouble {
    Single,
    Single3,
    Double,
    Double3,
}

/// How a string ends that opens with the given text: with the quotes it
/// opens with. A prefix alone says nothing, and any other text is no
/// opening of a string.
pub open spec fn end_of(key: Seq<char>) -> Result<Option<SingleDouble>, CompileError> {
    if key == "'"@ {
        Ok(Some(SingleDouble::Single))
    } else if key == "\""@ {
        Ok(Some(SingleDouble::Double))
    } else if key == "'''"@ {
        Ok(Some(SingleDouble::Single3))
    } else if key == "\"\"\""@ {
        Ok(Some(SingleDouble::Double3))
    } else if key == "r'''"@ {
        Ok(Some(SingleDouble::Single3))
    } else if key == "r\"\"\""@ {
        Ok(Some(SingleDouble::Double3))
    } else if key == "R'''"@ {
        Ok(Some(SingleDouble::Single3))
    } else if key == "R\"\"\""@ {
        Ok(Some(SingleDouble::Double3))
    } else if key == "b'''"@ {
        Ok(Some(SingleDouble::Single3))
    } else if key == "b\"\"\""@ {
        Ok(Some(SingleDouble::Double3))
    } else if key == "B'''"@ {
        Ok(Some(SingleDouble::Single3))
    } else if key == "B\"\"\""@ {
        Ok(Some(SingleDouble::Double3))
    } else if key == "br'''"@ {
        Ok(Some(SingleDouble::Single3))
    } else if key == "br\"\"\""@ {
        Ok(Some(SingleDouble::Double3))
    } else if key == "Br'''"@ {
        Ok(Some(SingleDouble::Single3))
    } else if key == "Br\"\"\""@ {
        Ok(Some(SingleDouble::Double3))
    } else if key == "bR'''"@ {
        Ok(Some(SingleDouble::Single3))
    } else if key == "bR\"\"\""@ {
        Ok(Some(SingleDouble::Double3))
    } else if key == "BR'''"@ {
        Ok(Some(SingleDouble::Single3))
    } else if key == "BR\"\"\""@ {
        Ok(Some(SingleDouble::Double3))
    } else if key == "rb'''"@ {
        Ok(Some(SingleDouble::Single3))
    } else if key == "rb\"\"\""@ {
        Ok(Some(SingleDouble::Double3))
    } else if key == "rB'''"@ {
        Ok(Some(SingleDouble::Single3))
    } else if key == "rB\"\"\""@ {
        Ok(Some(SingleDouble::Double3))
    } else if key == "Rb'''"@ {
        Ok(Some(SingleDouble::Single3))
    } else if key == "Rb\"\"\""@ {
        Ok(Some(SingleDouble::Double3))
    } else if key == "RB'''"@ {
        Ok(Some(SingleDouble::Single3))
    } else if key == "RB\"\"\""@ {
        Ok(Some(SingleDouble::Double3))
    } else if key == "u'''"@ {
        Ok(Some(SingleDouble::Single3))
    } else if key == "u\"\"\""@ {
        Ok(Some(SingleDouble::Double3))
    } else if key == "U'''"@ {
        Ok(Some(SingleDouble::Single3))
    } else if key == "U\"\"\""@ {
        Ok(Some(SingleDouble::Double3))
    } else if key == "r"@ || key == "R"@ || key == "b"@ || key == "B"@ || key == "u"@ || key == "U"@ {
        Ok(None)
    } else {
        Err(CompileError::BadStringPrefix)
    }
}

/// How a string ends that opens with the given text.
pub fn endpats(key: &str) -> (r: Result<Option<SingleDouble>, CompileError>)
    ensures
        r == end_of(key@),
{
    if text_is(key, "'") {
        Ok(Some(SingleDouble::Single))
    } else if text_is(key, "\"") {
        Ok(Some(SingleDouble::Double))
    } else if text_is(key, "'''") {
        Ok(Some(SingleDouble::Single3))
    } else if text_is(key, "\"\"\"") {
        Ok(Some(SingleDouble::Double3))
    } else if text_is(key, "r'''") {
        Ok(Some(SingleDouble::Single3))
    } else if text_is(key, "r\"\"\"") {
        Ok(Some(SingleDouble::Double3))
    } else if text_is(key, "R'''") {
        Ok(Some(SingleDouble::Single3))
    } else if text_is(key, "R\"\"\"") {
        Ok(Some(SingleDouble::Double3))
    } else if text_is(key, "b'''") {
        Ok(Some(SingleDouble::Single3))
    } else if text_is(key, "b\"\"\"") {
        Ok(Some(SingleDouble::Double3))
    } else if text_is(key, "B'''") {
        Ok(Some(SingleDouble::Single3))
    } else if text_is(key, "B\"\"\"") {
        Ok(Some(SingleDouble::Double3))
    } else if text_is(key, "br'''") {
        Ok(Some(SingleDouble::Single3))
    } else if text_is(key, "br\"\"\"") {
        Ok(Some(SingleDouble::Double3))
    } else if text_is(key, "Br'''") {
        Ok(Some(SingleDouble::Single3))
    } else if text_is(key, "Br\"\"\"") {
        Ok(Some(SingleDouble::Double3))
    } else if text_is(key, "bR'''") {
        Ok(Some(SingleDouble::Single3))
    } else if text_is(key, "bR\"\"\"") {
        Ok(Some(SingleDouble::Double3))
    } else if text_is(key, "BR'''") {
        Ok(Some(SingleDouble::Single3))
    } else if text_is(key, "BR\"\"\"") {
        Ok(Some(SingleDouble::Double3))
    } else if text_is(key, "rb'''") {
        Ok(Some(SingleDouble::Single3))
    } else if text_is(key, "rb\"\"\"") {
        Ok(Some(SingleDouble::Double3))
    } else if text_is(key, "rB'''") {
        Ok(Some(SingleDouble::Single3))
    } else if text_is(key, "rB\"\"\"") {
        Ok(Some(SingleDouble::Double3))
    } else if text_is(key, "Rb'''") {
        Ok(Some(SingleDouble::Single3))
    } else if text_is(key, "Rb\"\"\"") {
        Ok(Some(SingleDouble::Double3))
    } else if text_is(key, "RB'''") {
        Ok(Some(SingleDouble::Single3))
    } else if text_is(key, "RB\"\"\"") {
        Ok(Some(SingleDouble::Double3))
    } else if text_is(key, "u'''") {
        Ok(Some(SingleDouble::Single3))
    } else if text_is(key, "u\"\"\"") {
        Ok(Some(SingleDouble::Double3))
    } else if text_is(key, "U'''") {
        Ok(Some(SingleDouble::Single3))
    } else if text_is(key, "U\"\"\"") {
        Ok(Some(SingleDouble::Double3))
    } else if text_is(key, "r") || text_is(key, "R") || text_is(key, "b") || text_is(key, "B") || text_is(key, "u") || text_is(key, "U") {
        Ok(None)
    } else {
        Err(CompileError::BadStringPrefix)
    }
}

/// `(a|b|c|d)`
pub open spec fn either4(a: Seq<char>, b: Seq<char>, c: Seq<char>, d: Seq<char>) -> Seq<char> {
    "("@ + a + "|"@ + b + "|"@ + c + "|"@ + d + ")"@
}

/// `(a|b|c|d|e)`
pub open spec fn either5(a: Seq<char>, b: Seq<char>, c: Seq<char>, d: Seq<char>, e: Seq<char>) -> Seq<char> {
    "("@ + a + "|"@ + b + "|"@ + c + "|"@ + d + "|"@ + e + ")"@
}

/// `(a|b|c|d|e|f|g|h)`
pub open spec fn either8(
    a: Seq<char>,
    b: Seq<char>,
    c: Seq<char>,
    d: Seq<char>,
    e: Seq<char>,
    f: Seq<char>,
    g: Seq<char>,
    h: Seq<char>,
) -> Seq<char> {
    "("@ + a + "|"@ + b + "|"@ + c + "|"@ + d + "|"@ + e + "|"@ + f + "|"@ + g + "|"@ + h + ")"@
}

/// A pattern for one of four patterns.
pub fn group4(a: &str, b: &str, c: &str, d: &str) -> (s: String)
    ensures
        s@ == either4(a@, b@, c@, d@),
{
    let mut s = String::from_str("(");
    push_text(&mut s, a);
    push_text(&mut s, "|");
    push_text(&mut s, b);
    push_text(&mut s, "|");
    push_text(&mut s, c);
    push_text(&mut s, "|");
    push_text(&mut s, d);
    push_text(&mut s, ")");
    s
}

/// A pattern for one of five patterns.
pub fn group5(a: &str, b: &str, c: &str, d: &str, e: &str) -> (s: String)
    ensures
        s@ == either5(a@, b@, c@, d@, e@),
{
    let mut s = String::from_str("(");
    push_text(&mut s, a);
    push_text(&mut s, "|");
    push_text(&mut s, b);
    push_text(&mut s, "|");
    push_text(&mut s, c);
    push_text(&mut s, "|");
    push_text(&mut s, d);
    push_text(&mut s, "|");
    push_text(&mut s, e);
    push_text(&mut s, ")");
    s
}

/// A pattern for one of eight patterns.
pub fn group8(a: &str, b: &str, c: &str, d: &str, e: &str, f: &str, g: &str, h: &str) -> (s: String)
    ensures
        s@ == either8(a@, b@, c@, d@, e@, f@, g@, h@),
{
    let mut s = String::from_str("(");
    push_text(&mut s, a);
    push_text(&mut s, "|");
    push_text(&mut s, b);
    push_text(&mut s, "|");
    push_text(&mut s, c);
    push_text(&mut s, "|");
    push_text(&mut s, d);
    push_text(&mut s, "|");
    push_text(&mut s, e);
    push_text(&mut s, "|");
    push_text(&mut s, f);
    push_text(&mut s, "|");
    push_text(&mut s, g);
    push_text(&mut s, "|");
    push_text(&mut s, h);
    push_text(&mut s, ")");
    s
}

/// The prefix that a string may have.
pub open spec fn string_prefix() -> Seq<char> {
    "(?:[bB][rR]?|[rR][bB]?|[uU])?"@
}

/// An exponent.
pub open spec fn exponent() -> Seq<char> {
    "[eE][-+]?[0-9]+"@
}

/// A number with a point or an exponent.
pub open spec fn float_number() -> Seq<char> {
    either2(either2("[0-9]+\\.[0-9]*"@, "\\.[0-9]+"@) + "("@ + exponent() + ")?"@, "[0-9]+"@ + exponent())
}

/// A number.
pub open spec fn number_pattern() -> Seq<char> {
    either3(
        either2("[0-9]+[jJ]"@, float_number() + "[jJ]"@),
        float_number(),
        either4("0[xX][0-9a-fA-F]+"@, "0[bB][01]+"@, "0[oO][0-7]+"@, "(?:0+|[1-9][0-9]*)"@),
    )
}

/// An operator, a bracket or a delimiter. The longer operators come
/// first.
pub open spec fn funny_pattern() -> Seq<char> {
    either3(
        either8(
            "\\*\\*=?"@,
            ">>=?"@,
            "<<=?"@,
            "!="@,
            "//=?"@,
            "->"@,
            "[-+*/%&@|^=<>]=?"@,
            "~"@,
        ),
        "[]\\[(){}]"@,
        either3("\\r?\\n"@, "\\.\\.\\."@, "[:;.,@]"@),
    )
}

/// The opening of a string in three quotes.
pub open spec fn triple_pattern() -> Seq<char> {
    either2(string_prefix() + "'''"@, string_prefix() + "\"\"\""@)
}

/// A string in one quote up to its end or to a backslash at the end of
/// the line.
pub open spec fn cont_str_pattern() -> Seq<char> {
    either2(
        string_prefix() + "'[^\\n'\\\\]*(?:\\\\.[^\\n'\\\\]*)*"@ + either2("'"@, "\\\\\\r?\\n"@),
        string_prefix() + "\"[^\\n\"\\\\]*(?:\\\\.[^\\n\"\\\\]*)*"@ + either2("\""@, "\\\\\\r?\\n"@),
    )
}

/// The pattern of the next token: white space, and in the first group a
/// line continuation or the end of the text, a comment, the opening of a
/// string in three quotes, a number, an operator, a string or a name.
pub open spec fn pseudo_pattern() -> Seq<char> {
    "^"@ + "[ \\f\\t]*"@ + either5(
        either3("\\\\\\r?\\n|$"@, "#[^\\r\\n]*"@, triple_pattern()),
        number_pattern(),
        funny_pattern(),
        cont_str_pattern(),
        "\\w+"@,
    )
}

/// The pattern of the rest of a string up to the quotes that end it.
pub open spec fn quote_pattern(q: SingleDouble) -> Seq<char> {
    match q {
        SingleDouble::Single => "^[^'\\\\]*(?:\\\\.[^'\\\\]*)*'"@,
        SingleDouble::Double => "^[^\"\\\\]*(?:\\\\.[^\"\\\\]*)*\""@,
        SingleDouble::Single3 => "^[^'\\\\]*(?:(?:\\\\.|'(?:[^'][^']))[^'\\\\]*)*'''"@,
        SingleDouble::Double3 => "^[^\"\\\\]*(?:(?:\\\\.|\"(?:[^\"][^\"]))[^\"\\\\]*)*\"\"\""@,
    }
}

/// The pattern of the start of a name.
pub open spec fn identifier_pattern() -> Seq<char> {
    "^[[:alpha:]][[:word:]]*"@
}

fn float_text() -> (s: String)
    ensures
        s@ == float_number(),
{
    let mut point = group2("[0-9]+\\.[0-9]*", "\\.[0-9]+");
    push_text(&mut point, "(");
    push_text(&mut point, "[eE][-+]?[0-9]+");
    push_text(&mut point, ")?");
    let mut exp = String::from_str("[0-9]+");
    push_text(&mut exp, "[eE][-+]?[0-9]+");
    group2(point.as_str(), exp.as_str())
}

fn number_text() -> (s: String)
    ensures
        s@ == number_pattern(),
{
    let float = float_text();
    let mut imag_float = float.clone();
    push_text(&mut imag_float, "[jJ]");
    let imag = group2("[0-9]+[jJ]", imag_float.as_str());
    let whole = group4("0[xX][0-9a-fA-F]+", "0[bB][01]+", "0[oO][0-7]+", "(?:0+|[1-9][0-9]*)");
    group3(imag.as_str(), float.as_str(), whole.as_str())
}

fn funny_text() -> (s: String)
    ensures
        s@ == funny_pattern(),
{
    let operator = group8("\\*\\*=?", ">>=?", "<<=?", "!=", "//=?", "->", "[-+*/%&@|^=<>]=?", "~");
    let special = group3("\\r?\\n", "\\.\\.\\.", "[:;.,@]");
    group3(operator.as_str(), "[]\\[(){}]", special.as_str())
}

fn prefixed(rest: &str) -> (s: String)
    ensures
        s@ == string_prefix() + rest@,
{
    let mut s = String::from_str("(?:[bB][rR]?|[rR][bB]?|[uU])?");
    push_text(&mut s, rest);
    s
}

fn triple_text() -> (s: String)
    ensures
        s@ == triple_pattern(),
{
    let a = prefixed("'''");
    let b = prefixed("\"\"\"");
    group2(a.as_str(), b.as_str())
}

fn cont_str_text() -> (s: String)
    ensures
        s@ == cont_str_pattern(),
{
    let mut a = prefixed("'[^\\n'\\\\]*(?:\\\\.[^\\n'\\\\]*)*");
    let ea = group2("'", "\\\\\\r?\\n");
    push_text(&mut a, ea.as_str());
    let mut b = prefixed("\"[^\\n\"\\\\]*(?:\\\\.[^\\n\"\\\\]*)*");
    let eb = group2("\"", "\\\\\\r?\\n");
    push_text(&mut b, eb.as_str());
    group2(a.as_str(), b.as_str())
}

fn pseudo_text() -> (s: String)
    ensures
        s@ == pseudo_pattern(),
{
    let triple = triple_text();
    let extras = group3("\\\\\\r?\\n|$", "#[^\\r\\n]*", triple.as_str());
    let number = number_text();
    let funny = funny_text();
    let cont = cont_str_text();
    let token = group5(extras.as_str(), number.as_str(), funny.as_str(), cont.as_str(), "\\w+");
    let mut s = String::from_str("^");
    push_text(&mut s, "[ \\f\\t]*");
    push_text(&mut s, token.as_str());
    s
}

/// The compiled patterns of the lexer.
pub struct Patterns {
    pseudo: regex::Regex,
    single: regex::Regex,
    double: regex::Regex,
    single3: regex::Regex,
    double3: regex::Regex,
    identifier: regex::Regex,
}

/// Whether the crate `regex` accepts every pattern of the lexer.
pub open spec fn patterns_accepted() -> bool {
    &&& pattern_accepted(pseudo_pattern())
    &&& pattern_accepted(quote_pattern(SingleDouble::Single))
    &&& pattern_accepted(quote_pattern(SingleDouble::Double))
    &&& pattern_accepted(quote_pattern(SingleDouble::Single3))
    &&& pattern_accepted(quote_pattern(SingleDouble::Double3))
    &&& pattern_accepted(identifier_pattern())
}

impl Patterns {
    /// Whether each compiled pattern stands for the pattern it is meant
    /// to be.
    pub closed spec fn wf(&self) -> bool {
        &&& pattern_of(self.pseudo) == pseudo_pattern()
        &&& pattern_of(self.single) == quote_pattern(SingleDouble::Single)
        &&& pattern_of(self.double) == quote_pattern(SingleDouble::Double)
        &&& pattern_of(self.single3) == quote_pattern(SingleDouble::Single3)
        &&& pattern_of(self.double3) == quote_pattern(SingleDouble::Double3)
        &&& pattern_of(self.identifier) == identifier_pattern()
    }

    fn one(pattern: &str) -> (r: Result<regex::Regex, CompileError>)
        ensures
            match r {
                Ok(re) => pattern_accepted(pattern@) && pattern_of(re) == pattern@,
                Err(e) => e == CompileError::BadPattern && !pattern_accepted(pattern@),
            },
    {
        match compile(pattern) {
            Ok(re) => Ok(re),
            Err(_) => Err(CompileError::BadPattern),
        }
    }

    /// Compiles the patterns of the lexer.
    pub fn new() -> (r: Result<Patterns, CompileError>)
        ensures
            match r {
                Ok(p) => patterns_accepted() && p.wf(),
                Err(e) => e == CompileError::BadPattern && !patterns_accepted(),
            },
    {
        let pseudo = Patterns::one(pseudo_text().as_str())?;
        let single = Patterns::one("^[^'\\\\]*(?:\\\\.[^'\\\\]*)*'")?;
        let double = Patterns::one("^[^\"\\\\]*(?:\\\\.[^\"\\\\]*)*\"")?;
        let single3 = Patterns::one("^[^'\\\\]*(?:(?:\\\\.|'(?:[^'][^']))[^'\\\\]*)*'''")?;
        let double3 = Patterns::one("^[^\"\\\\]*(?:(?:\\\\.|\"(?:[^\"][^\"]))[^\"\\\\]*)*\"\"\"")?;
        let identifier = Patterns::one("^[[:alpha:]][[:word:]]*")?;
        Ok(Patterns { pseudo, single, double, single3, double3, identifier })
    }

    /// What the first group of the pattern of the next token holds.
    pub fn next_token(&self, text: &[char]) -> (r: Option<Vec<char>>)
        requires
            self.wf(),
        ensures
            (match r {
                Some(s) => Some(s@),
                None => None,
            }) == capture_of(pseudo_pattern(), text@, 1),
    {
        let t = string_of(text);
        match capture(&self.pseudo, t.as_str(), 1) {
            Some(s) => Some(chars_of(s.as_str())),
            None => None,
        }
    }

    /// The rest of a string up to the quotes that end it, at the start of
    /// the text.
    pub fn string_end(&self, q: SingleDouble, text: &[char]) -> (r: Option<Vec<char>>)
        requires
            self.wf(),
        ensures
            (match r {
                Some(s) => Some(s@),
                None => None,
            }) == capture_of(quote_pattern(q), text@, 0),
    {
        let t = string_of(text);
        let re = match q {
            SingleDouble::Single => &self.single,
            SingleDouble::Double => &self.double,
            SingleDouble::Single3 => &self.single3,
            SingleDouble::Double3 => &self.double3,
        };
        match capture(re, t.as_str(), 0) {
            Some(s) => Some(chars_of(s.as_str())),
            None => None,
        }
    }

    /// Whether a name can start with the character.
    pub fn starts_name(&self, c: char) -> (b: bool)
        requires
            self.wf(),
        ensures
            b == capture_of(identifier_pattern(), seq![c], 0) is Some,
    {
        let mut t = String::new();
        push_char(&mut t, c);
        assert(t@ =~= seq![c]);
        capture(&self.identifier, t.as_str(), 0).is_some()
    }
}

/// The lines of a text with their line breaks: each line ends behind a
/// line feed, the last one at the end of the text.
pub open spec fn lines_kept(s: Seq<char>, from: int) -> Seq<Seq<char>>
    decreases s.len() - from,
{
    if from < 0 || from >= s.len() {
        Seq::empty()
    } else {
        let end = crate::text::line_end(s, from);
        proof {
            crate::text::lemma_line_end(s, from);
        }
        if end < s.len() {
            seq![s.subrange(from, end + 1)] + lines_kept(s, end + 1)
        } else {
            seq![s.subrange(from, end)]
        }
    }
}

/// The lines of a list as values.
pub open spec fn line_views(lines: Seq<Vec<char>>) -> Seq<Seq<char>> {
    Seq::new(lines.len(), |i: int| lines[i]@)
}

/// Splits a text into its lines, which keep their line breaks.
pub fn split_lines(content: &str) -> (lines: Vec<Vec<char>>)
    ensures
        line_views(lines@) == lines_kept(content@, 0),
{
    let cs = chars_of(content);
    let mut out: Vec<Vec<char>> = Vec::new();
    let mut from: usize = 0;
    assert(line_views(out@) =~= Seq::<Seq<char>>::empty());
    while from < cs.len()
        invariant
            from <= cs.len(),
            cs@ == content@,
            lines_kept(cs@, 0) == line_views(out@) + lines_kept(cs@, from as int),
        decreases cs.len() - from,
    {
        let mut end: usize = from;
        while end < cs.len() && cs[end] != '\n'
            invariant
                from <= end <= cs.len(),
                crate::text::line_end(cs@, from as int) == crate::text::line_end(cs@, end as int),
            decreases cs.len() - end,
        {
            end += 1;
        }
        let stop = if end < cs.len() {
            end + 1
        } else {
            end
        };
        let line = crate::text::prefix_of(slice_of(&cs, from, stop), stop - from);
        assert(line@ =~= cs@.subrange(from as int, stop as int));
        let ghost before = line_views(out@);
        let ghost rest = lines_kept(cs@, from as int);
        out.push(line);
        assert(line_views(out@) =~= before.push(line@));
        assert(before + rest =~= before.push(line@) + lines_kept(cs@, stop as int));
        from = stop;
    }
    assert(line_views(out@) + lines_kept(cs@, cs@.len() as int) =~= line_views(out@));
    out
}

/// A location: "line,column-line,column".
pub open spec fn place(line: nat, column: nat, end_line: nat, end_column: nat) -> Seq<char> {
    decimal(line) + ","@ + decimal(column) + "-"@ + decimal(end_line) + ","@ + decimal(end_column)
}

/// The token of a kind of the lexer with a text at a location.
pub open spec fn made(typ: TokenType, val: Seq<char>, location: Seq<char>) -> Result<TokView, CompileError> {
    token_for(exact_type_of(typ, val).name(), location, val)
}

fn place_text(s: (u64, u64), e: (u64, u64)) -> (r: String)
    ensures
        r@ == place(s.0 as nat, s.1 as nat, e.0 as nat, e.1 as nat),
{
    let mut r = String::new();
    push_decimal(&mut r, s.0);
    push_text(&mut r, ",");
    push_decimal(&mut r, s.1);
    push_text(&mut r, "-");
    push_decimal(&mut r, e.0);
    push_text(&mut r, ",");
    push_decimal(&mut r, e.1);
    assert(r@ =~= place(s.0 as nat, s.1 as nat, e.0 as nat, e.1 as nat));
    r
}

/// The token of a kind of the lexer with a text, from a start to an end,
/// each a line and a column.
pub fn token_info(typ: TokenType, val: &str, s: (u64, u64), e: (u64, u64)) -> (r: Result<Tok, CompileError>)
    ensures
        match r {
            Ok(t) => made(typ, val@, place(s.0 as nat, s.1 as nat, e.0 as nat, e.1 as nat)) == Ok::<
                TokView,
                CompileError,
            >(t.deep_view()),
            Err(x) => made(typ, val@, place(s.0 as nat, s.1 as nat, e.0 as nat, e.1 as nat)) == Err::<
                TokView,
                CompileError,
            >(x),
        },
{
    let loc = place_text(s, e);
    let name = exact_type(typ, val).to_string();
    find_token_for_name(name.as_str(), loc.as_str(), val)
}

/// Whether the token is the word `async` as a name.
pub fn is_async(tok: &Tok) -> (b: bool)
    ensures
        b == (tok.deep_view().kind == TokKind::NAME && tok.deep_view().value == "async"@),
{
    match tok {
        Tok::NAME { location, value } => text_is(value.as_str(), "async"),
        _ => false,
    }
}

/// Whether the kind is that of a name or a keyword.
pub open spec fn is_name_kind(k: TokKind) -> bool {
    k == TokKind::NAME || k == TokKind::NAMEdef || k == TokKind::NAMEbreak || k == TokKind::NAMEcontinue || k
        == TokKind::NAMEglobal || k == TokKind::NAMEnonlocal || k == TokKind::NAMEwhile || k == TokKind::NAMEif
        || k == TokKind::NAMEreturn || k == TokKind::NAMEelif || k == TokKind::NAMEelse || k == TokKind::NAMEor
        || k == TokKind::NAMEnot || k == TokKind::NAMEpass || k == TokKind::NAMEand || k == TokKind::NAMEin || k
        == TokKind::NAMEis || k == TokKind::NAMENone || k == TokKind::NAMETrue || k == TokKind::NAMEFalse
}

/// Whether the token is a name or a keyword.
pub fn is_name(tok: &Tok) -> (b: bool)
    ensures
        b == is_name_kind(tok.deep_view().kind),
{
    match tok.kind() {
        TokKind::NAME
        | TokKind::NAMEdef
        | TokKind::NAMEbreak
        | TokKind::NAMEcontinue
        | TokKind::NAMEglobal
        | TokKind::NAMEnonlocal
        | TokKind::NAMEwhile
        | TokKind::NAMEif
        | TokKind::NAMEreturn
        | TokKind::NAMEelif
        | TokKind::NAMEelse
        | TokKind::NAMEor
        | TokKind::NAMEnot
        | TokKind::NAMEpass
        | TokKind::NAMEand
        | TokKind::NAMEin
        | TokKind::NAMEis
        | TokKind::NAMENone
        | TokKind::NAMETrue
        | TokKind::NAMEFalse => true,
        _ => false,
    }
}

/// The state of the lexer between two tokens.
pub struct Lexer {
    pub tokens: Vec<Tok>,
    /// The number of the line.
    pub lnum: u64,
    /// The number of brackets that are open.
    pub parenlev: i64,
    /// Whether the line before ended with a backslash.
    pub continued: bool,
    /// The part of a string in three quotes that was read, while the
    /// string goes on.
    pub contstr: Vec<char>,
    /// The columns of the blocks that are open.
    pub indents: Vec<u64>,
    /// The word `async`, which waits for the word behind it.
    pub stashed: Option<Tok>,
    pub async_def: bool,
    pub async_def_indent: u64,
    pub async_def_nl: bool,
    /// The quotes that end the string that goes on.
    pub endprog: SingleDouble,
    /// Where the string that goes on began.
    pub strstart: (u64, u64),
}

/// The state of the lexer as a value.
pub struct LexView {
    pub tokens: Seq<TokView>,
    pub lnum: nat,
    pub parenlev: int,
    pub continued: bool,
    pub contstr: Seq<char>,
    pub indents: Seq<nat>,
    pub stashed: Option<TokView>,
    pub async_def: bool,
    pub async_def_indent: nat,
    pub async_def_nl: bool,
    pub endprog: SingleDouble,
    pub strstart: (nat, nat),
}

impl DeepView for Lexer {
    type V = LexView;

    open spec fn deep_view(&self) -> LexView {
        LexView {
            tokens: tok_views(self.tokens@),
            lnum: self.lnum as nat,
            parenlev: self.parenlev as int,
            continued: self.continued,
            contstr: self.contstr@,
            indents: Seq::new(self.indents@.len(), |i: int| self.indents@[i] as nat),
            stashed: match self.stashed {
                Some(t) => Some(t.deep_view()),
                None => None,
            },
            async_def: self.async_def,
            async_def_indent: self.async_def_indent as nat,
            async_def_nl: self.async_def_nl,
            endprog: self.endprog,
            strstart: (self.strstart.0 as nat, self.strstart.1 as nat),
        }
    }
}

impl LexView {
    /// The state before the first line.
    pub open spec fn start() -> LexView {
        LexView {
            tokens: Seq::empty(),
            lnum: 0,
            parenlev: 0,
            continued: false,
            contstr: Seq::empty(),
            indents: seq![0nat],
            stashed: None,
            async_def: false,
            async_def_indent: 0,
            async_def_nl: false,
            endprog: SingleDouble::Single,
            strstart: (0, 0),
        }
    }

    /// The state with one more token.
    pub open spec fn add(self, typ: TokenType, val: Seq<char>, s: (nat, nat), e: (nat, nat)) -> Result<
        LexView,
        CompileError,
    > {
        match made(typ, val, place(s.0, s.1, e.0, e.1)) {
            Ok(t) => Ok(LexView { tokens: self.tokens.push(t), ..self }),
            Err(x) => Err(x),
        }
    }

    /// The state after the word that waited has become a token.
    pub open spec fn flush(self) -> LexView {
        match self.stashed {
            Some(t) => LexView { tokens: self.tokens.push(t), stashed: None, ..self },
            None => self,
        }
    }

    /// The column of the innermost block.
    pub open spec fn top(self) -> nat {
        if self.indents.len() > 0 {
            self.indents.last()
        } else {
            0
        }
    }

    /// The state outside an `async def` once the lines are indented no
    /// more than it.
    pub open spec fn async_left(self, only_after_newline: bool) -> LexView {
        if self.async_def && (self.async_def_nl || !only_after_newline) && self.async_def_indent >= self.top() {
            LexView { async_def: false, async_def_nl: false, async_def_indent: 0, ..self }
        } else {
            self
        }
    }
}

impl Lexer {
    /// The state before the first line.
    pub fn new() -> (lx: Lexer)
        ensures
            lx.deep_view() == LexView::start(),
    {
        let lx = Lexer {
            tokens: Vec::new(),
            lnum: 0,
            parenlev: 0,
            continued: false,
            contstr: Vec::new(),
            indents: vec![0],
            stashed: None,
            async_def: false,
            async_def_indent: 0,
            async_def_nl: false,
            endprog: SingleDouble::Single,
            strstart: (0, 0),
        };
        assert(lx.deep_view().tokens =~= Seq::<TokView>::empty());
        assert(lx.deep_view().contstr =~= Seq::<char>::empty());
        assert(lx.deep_view().indents =~= seq![0nat]);
        lx
    }

    /// Adds a token.
    pub fn add(&mut self, typ: TokenType, val: &[char], s: (u64, u64), e: (u64, u64)) -> (r: Result<
        (),
        CompileError,
    >)
        ensures
            match r {
                Ok(_) => old(self).deep_view().add(
                    typ,
                    val@,
                    (s.0 as nat, s.1 as nat),
                    (e.0 as nat, e.1 as nat),
                ) == Ok::<LexView, CompileError>(final(self).deep_view()),
                Err(x) => old(self).deep_view().add(
                    typ,
                    val@,
                    (s.0 as nat, s.1 as nat),
                    (e.0 as nat, e.1 as nat),
                ) == Err::<LexView, CompileError>(x),
            },
    {
        let text = string_of(val);
        let t = token_info(typ, text.as_str(), s, e)?;
        self.tokens.push(t);
        assert(tok_views(self.tokens@) =~= tok_views(old(self).tokens@).push(t.deep_view()));
        Ok(())
    }

    /// Makes the word that waits a token.
    pub fn flush(&mut self)
        ensures
            final(self).deep_view() == old(self).deep_view().flush(),
    {
        let mut waiting: Option<Tok> = None;
        core::mem::swap(&mut self.stashed, &mut waiting);
        match waiting {
            Some(t) => {
                self.tokens.push(t);
                assert(tok_views(self.tokens@) =~= tok_views(old(self).tokens@).push(t.deep_view()));
            },
            None => {},
        }
    }

    /// The column of the innermost block.
    pub fn top(&self) -> (c: u64)
        ensures
            c == self.deep_view().top(),
    {
        if self.indents.len() > 0 {
            self.indents[self.indents.len() - 1]
        } else {
            0
        }
    }

    fn leave_async(&mut self, only_after_newline: bool)
        ensures
            final(self).deep_view() == old(self).deep_view().async_left(only_after_newline),
    {
        if self.async_def && (self.async_def_nl || !only_after_newline) && self.async_def_indent >= self.top() {
            self.async_def = false;
            self.async_def_nl = false;
            self.async_def_indent = 0;
        }
    }
}

/// Where `pat` stands first in `text`, from `from` on.
pub open spec fn first_at(text: Seq<char>, pat: Seq<char>, from: int) -> Option<int>
    decreases text.len() - from,
{
    if pat.len() == 0 || from < 0 || from + pat.len() > text.len() {
        None
    } else if text.subrange(from, from + pat.len()) == pat {
        Some(from)
    } else {
        first_at(text, pat, from + 1)
    }
}

/// Where `pat` stands first in `text`.
pub fn find_first(text: &[char], pat: &[char]) -> (r: Option<usize>)
    ensures
        match r {
            Some(i) => first_at(text@, pat@, 0) == Some(i as int) && i + pat@.len() <= text@.len(),
            None => first_at(text@, pat@, 0) is None,
        },
{
    if pat.len() == 0 || pat.len() > text.len() {
        return None;
    }
    let mut i: usize = 0;
    while i <= text.len() - pat.len()
        invariant
            0 < pat.len() <= text.len(),
            first_at(text@, pat@, 0) == first_at(text@, pat@, i as int),
        decreases text.len() - i,
    {
        let hit = has_prefix_at(text, i, pat);
        assert(text@.skip(i as int).take(pat@.len() as int) =~= text@.subrange(i as int, i + pat@.len()));
        if hit {
            return Some(i);
        }
        i += 1;
    }
    None
}

/// Whether the character is white space.
pub open spec fn is_space(c: char) -> bool {
    ('\u{9}' <= c <= '\u{d}') || c == ' ' || c == '\u{85}' || c == '\u{a0}' || c == '\u{1680}' || ('\u{2000}'
        <= c <= '\u{200a}') || c == '\u{2028}' || c == '\u{2029}' || c == '\u{202f}' || c == '\u{205f}' || c
        == '\u{3000}'
}

/// The number of characters of a text without the white space at its end.
pub open spec fn trimmed_len(s: Seq<char>, n: int) -> int
    decreases n,
{
    if n <= 0 || n > s.len() {
        0
    } else if is_space(s[n - 1]) {
        trimmed_len(s, n - 1)
    } else {
        n
    }
}

fn space(c: char) -> (b: bool)
    ensures
        b == is_space(c),
{
    ('\u{9}' <= c && c <= '\u{d}') || c == ' ' || c == '\u{85}' || c == '\u{a0}' || c == '\u{1680}' || (
    '\u{2000}' <= c && c <= '\u{200a}') || c == '\u{2028}' || c == '\u{2029}' || c == '\u{202f}' || c
        == '\u{205f}' || c == '\u{3000}'
}

fn trim_len(s: &[char]) -> (n: usize)
    ensures
        n == trimmed_len(s@, s@.len() as int),
        n <= s@.len(),
{
    let mut n: usize = s.len();
    while n > 0 && space(s[n - 1])
        invariant
            n <= s.len(),
            trimmed_len(s@, s@.len() as int) == trimmed_len(s@, n as int),
        decreases n,
    {
        n -= 1;
    }
    n
}

/// The place and the column behind the white space at the start of a
/// line: a tabulator leads to the next column that is a multiple of 8, a
/// form feed back to the first column.
pub open spec fn margin(line: Seq<char>, pos: int, column: int) -> (int, int)
    decreases line.len() - pos,
{
    if pos < 0 || pos >= line.len() {
        (pos, column)
    } else if line[pos] == ' ' {
        margin(line, pos + 1, column + 1)
    } else if line[pos] == '\t' {
        margin(line, pos + 1, (column / 8 + 1) * 8)
    } else if line[pos] == '\u{c}' {
        margin(line, pos + 1, 0)
    } else {
        (pos, column)
    }
}

fn measure(line: &Vec<char>) -> (r: (usize, u64))
    requires
        line.len() <= 0xffff_ffff,
    ensures
        margin(line@, 0, 0) == (r.0 as int, r.1 as int),
        r.0 <= line.len(),
        r.1 <= 8 * line.len(),
{
    let mut pos: usize = 0;
    let mut column: u64 = 0;
    while pos < line.len() && (line[pos] == ' ' || line[pos] == '\t' || line[pos] == '\u{c}')
        invariant
            pos <= line.len() <= 0xffff_ffff,
            column <= 8 * pos,
            margin(line@, 0, 0) == margin(line@, pos as int, column as int),
        decreases line.len() - pos,
    {
        if line[pos] == ' ' {
            column = column + 1;
        } else if line[pos] == '\t' {
            column = (column / 8 + 1) * 8;
        } else {
            column = 0;
        }
        pos += 1;
    }
    (pos, column)
}

/// Whether the word that waits is the word `async`.
pub open spec fn async_waits(lx: LexView) -> bool {
    match lx.stashed {
        Some(t) => is_name_kind(t.kind) && t.kind == TokKind::NAME && t.value == "async"@,
        None => false,
    }
}

/// The state after a word: `async` waits for the word behind it, and
/// before `def` it opens an `async def`, within which `async` and `await`
/// are tokens of their own.
pub open spec fn word_step(lx: LexView, token: Seq<char>, s: (nat, nat), e: (nat, nat)) -> Result<
    LexView,
    CompileError,
> {
    if (token == "async"@ || token == "await"@) && lx.async_def {
        lx.add(
            if token == "async"@ {
                TokenType::ASYNC
            } else {
                TokenType::AWAIT
            },
            token,
            s,
            e,
        )
    } else {
        match made(TokenType::NAME, token, place(s.0, s.1, e.0, e.1)) {
            Err(x) => Err(x),
            Ok(tok) => if token == "async"@ && lx.stashed is None {
                Ok(LexView { stashed: Some(tok), ..lx })
            } else {
                let lx1 = if token == "def"@ && async_waits(lx) {
                    LexView { async_def: true, async_def_indent: lx.top(), stashed: None, ..lx }
                } else {
                    lx
                };
                let lx2 = lx1.flush();
                Ok(LexView { tokens: lx2.tokens.push(tok), ..lx2 })
            },
        }
    }
}

/// The state after an operator or a bracket: brackets are counted.
pub open spec fn operator_step(lx: LexView, token: Seq<char>, s: (nat, nat), e: (nat, nat)) -> Result<
    LexView,
    CompileError,
> {
    let c = token[0];
    let level: Result<int, CompileError> = if c == '(' || c == '[' || c == '{' {
        if lx.parenlev >= i64::MAX {
            Err(CompileError::LimitExceeded)
        } else {
            Ok(lx.parenlev + 1)
        }
    } else if c == ')' || c == ']' || c == '}' {
        if lx.parenlev <= i64::MIN {
            Err(CompileError::LimitExceeded)
        } else {
            Ok(lx.parenlev - 1)
        }
    } else {
        Ok(lx.parenlev)
    };
    match level {
        Err(x) => Err(x),
        Ok(l) => (LexView { parenlev: l, ..lx }).flush().add(TokenType::OP, token, s, e),
    }
}

/// The state after a line break: within brackets it is white space, else
/// it ends the statement.
pub open spec fn newline_step(lx: LexView, token: Seq<char>, s: (nat, nat), e: (nat, nat)) -> Result<
    LexView,
    CompileError,
> {
    let lx1 = lx.flush();
    if lx1.parenlev > 0 {
        lx1.add(TokenType::NL, token, s, e)
    } else {
        match lx1.add(TokenType::NEWLINE, token, s, e) {
            Err(x) => Err(x),
            Ok(lx2) => Ok(
                if lx2.async_def {
                    LexView { async_def_nl: true, ..lx2 }
                } else {
                    lx2
                },
            ),
        }
    }
}

/// The state and the place after the opening of a string in three quotes
/// at `start`: the string is a token where it ends on the line; else it
/// goes on, and the line is done.
pub open spec fn triple_step(lx: LexView, line: Seq<char>, start: int, end: int, q: SingleDouble) -> Result<
    (LexView, int, bool),
    CompileError,
> {
    let lx1 = LexView { endprog: q, ..lx };
    match capture_of(quote_pattern(q), line.skip(end), 0) {
        Some(m) => {
            let pos = if end + m.len() <= line.len() {
                end + m.len()
            } else {
                line.len() as int
            };
            match lx1.add(
                TokenType::STRING,
                line.subrange(start, pos),
                (lx.lnum, start as nat),
                (lx.lnum, pos as nat),
            ) {
                Err(x) => Err(x),
                Ok(lx2) => Ok((lx2, pos, false)),
            }
        },
        None => Ok(
            (LexView { strstart: (lx.lnum, start as nat), contstr: line.skip(start), ..lx1 }, end, true),
        ),
    }
}

/// Whether the token opens a string in one quote: by its first character,
/// or by a prefix of one or two letters and the quote.
pub open spec fn opens_string(token: Seq<char>) -> bool {
    is_single_quoted(token.take(1)) || is_single_quoted(
        token.take(
            if token.len() < 2 {
                token.len() as int
            } else {
                2
            },
        ),
    ) || is_single_quoted(
        token.take(
            if token.len() < 3 {
                token.len() as int
            } else {
                3
            },
        ),
    )
}

/// Whether the token is a number: it starts with a digit, or with a point
/// and is neither a point nor three points.
pub open spec fn is_number_token(token: Seq<char>) -> bool {
    ('0' <= token[0] <= '9') || (token[0] == '.' && token != "."@ && token != "..."@)
}

/// The state, the place and whether the line is done after the token from
/// `start` to `end`.
#[verifier::opaque]
pub open spec fn classified(lx: LexView, line: Seq<char>, start: int, end: int) -> Result<
    (LexView, int, bool),
    CompileError,
> {
    let token = line.subrange(start, end);
    let initial = token[0];
    let s = (lx.lnum, start as nat);
    let e = (lx.lnum, end as nat);
    if is_triple_quoted(token) && !is_number_token(token) && initial != '\r' && initial != '\n' && initial != '#' {
        match end_of(token) {
            Ok(Some(q)) => triple_step(lx, line, start, end, q),
            Ok(None) => Err(CompileError::BadStringPrefix),
            Err(x) => Err(x),
        }
    } else {
        let next: Result<LexView, CompileError> = if is_number_token(token) {
            lx.add(TokenType::NUMBER, token, s, e)
        } else if initial == '\r' || initial == '\n' {
            newline_step(lx, token, s, e)
        } else if initial == '#' {
            lx.flush().add(TokenType::COMMENT, token, s, e)
        } else if opens_string(token) {
            if token.last() == '\n' {
                Err(CompileError::BadStringPrefix)
            } else {
                lx.add(TokenType::STRING, token, s, e)
            }
        } else if capture_of(identifier_pattern(), seq![initial], 0) is Some {
            word_step(lx, token, s, e)
        } else if initial == '\\' {
            Ok(LexView { continued: true, ..lx })
        } else {
            operator_step(lx, token, s, e)
        };
        match next {
            Err(x) => Err(x),
            Ok(lx1) => Ok((lx1, end, false)),
        }
    }
}

/// The state after a character that starts no token: it is a token of
/// its own kind.
pub open spec fn error_step(lx: LexView, line: Seq<char>, pos: int) -> Result<(LexView, int, bool), CompileError> {
    match lx.add(TokenType::ERRORTOKEN, seq![line[pos]], (lx.lnum, pos as nat), (lx.lnum, (pos + 1) as nat)) {
        Err(x) => Err(x),
        Ok(lx1) => Ok((lx1, pos + 1, false)),
    }
}

/// The state, the place and whether the line is done after the next
/// token, which the pattern of the next token finds behind white space.
/// Where it finds nothing but white space, the line is read.
#[verifier::opaque]
pub open spec fn token_step(lx: LexView, line: Seq<char>, pos: int) -> Result<(LexView, int, bool), CompileError> {
    match capture_of(pseudo_pattern(), line.skip(pos), 1) {
        None => error_step(lx, line, pos),
        Some(first) => if first.len() == 0 {
            Ok((lx, line.len() as int, false))
        } else {
            match first_at(line.skip(pos), first, 0) {
                None => error_step(lx, line, pos),
                Some(at) => classified(lx, line, pos + at, pos + at + first.len()),
            }
        },
    }
}

/// The state after the tokens of a line from `pos` on.
pub open spec fn tokens_from(lx: LexView, line: Seq<char>, pos: int) -> Result<LexView, CompileError>
    decreases line.len() - pos,
{
    if pos < 0 || pos >= line.len() {
        Ok(lx)
    } else {
        match token_step(lx, line, pos) {
            Err(x) => Err(x),
            Ok((lx1, pos1, done)) => if done || pos1 <= pos || pos1 > line.len() {
                Ok(lx1)
            } else {
                tokens_from(lx1, line, pos1)
            },
        }
    }
}

/// The state after the blocks that end before a line at `column`: each is
/// a token. The column has to be that of a block that is open.
pub open spec fn dedented(lx: LexView, pos: nat, column: nat) -> Result<LexView, CompileError>
    decreases lx.indents.len(),
{
    if column >= lx.top() || lx.indents.len() == 0 {
        Ok(lx)
    } else if !lx.indents.contains(column) {
        Err(CompileError::Unindent)
    } else {
        match (LexView { indents: lx.indents.drop_last(), ..lx }).async_left(false).add(
            TokenType::DEDENT,
            Seq::empty(),
            (lx.lnum, pos),
            (lx.lnum, pos),
        ) {
            Err(x) => Err(x),
            Ok(lx1) => dedented(lx1, pos, column),
        }
    }
}

/// The state at the first token of a line that starts a statement: a line
/// that is indented more opens a block, one that is indented less closes
/// blocks.
#[verifier::opaque]
pub open spec fn indented(lx: LexView, line: Seq<char>, pos: nat, column: nat) -> Result<LexView, CompileError> {
    let opened: Result<LexView, CompileError> = if column > lx.top() {
        (LexView { indents: lx.indents.push(column), ..lx }).add(
            TokenType::INDENT,
            line.take(pos as int),
            (lx.lnum, 0),
            (lx.lnum, pos),
        )
    } else {
        Ok(lx)
    };
    match opened {
        Err(x) => Err(x),
        Ok(lx1) => match dedented(lx1, pos, column) {
            Err(x) => Err(x),
            Ok(lx2) => Ok(lx2.async_left(true)),
        },
    }
}

/// The state after a line that holds a comment or nothing: the comment
/// and the line break are tokens.
#[verifier::opaque]
pub open spec fn blank_step(lx: LexView, line: Seq<char>, pos: int) -> Result<LexView, CompileError> {
    let max = line.len() as nat;
    if line[pos] == '#' {
        let n = trimmed_len(line.skip(pos), line.len() - pos);
        match lx.add(
            TokenType::COMMENT,
            line.subrange(pos, pos + n),
            (lx.lnum, pos as nat),
            (lx.lnum, (pos + n) as nat),
        ) {
            Err(x) => Err(x),
            Ok(lx1) => lx1.add(TokenType::NL, line.skip(pos + n), (lx.lnum, (pos + n) as nat), (lx.lnum, max)),
        }
    } else {
        lx.add(TokenType::NL, line.skip(pos), (lx.lnum, pos as nat), (lx.lnum, max))
    }
}

/// The state after a line, and whether the text is read. The empty line
/// stands for the end of the text.
pub open spec fn line_step(lx0: LexView, line: Seq<char>) -> Result<(LexView, bool), CompileError> {
    if lx0.lnum >= u64::MAX - 1 || line.len() > 0xffff_ffff {
        Err(CompileError::LimitExceeded)
    } else {
        let lx = LexView { lnum: lx0.lnum + 1, ..lx0 };
        if lx.contstr.len() > 0 {
            if line.len() == 0 {
                Err(CompileError::EofInString)
            } else {
                match capture_of(quote_pattern(lx.endprog), line, 0) {
                    Some(m) => {
                        let pos = if m.len() <= line.len() {
                            m.len() as int
                        } else {
                            line.len() as int
                        };
                        match lx.add(
                            TokenType::STRING,
                            lx.contstr + line.take(pos),
                            lx.strstart,
                            (lx.lnum, pos as nat),
                        ) {
                            Err(x) => Err(x),
                            Ok(lx1) => match tokens_from(LexView { contstr: Seq::empty(), ..lx1 }, line, pos) {
                                Err(x) => Err(x),
                                Ok(lx2) => Ok((lx2, false)),
                            },
                        }
                    },
                    None => Ok((LexView { contstr: lx.contstr + line, ..lx }, false)),
                }
            }
        } else if lx.parenlev == 0 && !lx.continued {
            let (pos, column) = margin(line, 0, 0);
            if line.len() == 0 || pos >= line.len() {
                Ok((lx, true))
            } else if line[pos] == '#' || line[pos] == '\r' || line[pos] == '\n' {
                match blank_step(lx, line, pos) {
                    Err(x) => Err(x),
                    Ok(lx1) => Ok((lx1, false)),
                }
            } else {
                match indented(lx, line, pos as nat, column as nat) {
                    Err(x) => Err(x),
                    Ok(lx1) => match tokens_from(lx1, line, pos) {
                        Err(x) => Err(x),
                        Ok(lx2) => Ok((lx2, false)),
                    },
                }
            }
        } else if line.len() == 0 {
            Err(CompileError::EofInStatement)
        } else {
            match tokens_from(LexView { continued: false, ..lx }, line, 0) {
                Err(x) => Err(x),
                Ok(lx1) => Ok((lx1, false)),
            }
        }
    }
}

/// The state after a token for the end of each of the first `n` blocks
/// that are still open behind the outermost.
pub open spec fn closed_blocks(lx: LexView, n: int) -> Result<LexView, CompileError>
    decreases n,
{
    if n <= 0 {
        Ok(lx)
    } else {
        match closed_blocks(lx, n - 1) {
            Err(x) => Err(x),
            Ok(lx1) => lx1.add(TokenType::DEDENT, Seq::empty(), (lx.lnum, 0), (lx.lnum, 0)),
        }
    }
}

/// The tokens at the end of the text: the word that waits, the ends of
/// the blocks that are open, and the end marker.
pub open spec fn finished(lx: LexView) -> Result<Seq<TokView>, CompileError> {
    let lx1 = lx.flush();
    match closed_blocks(lx1, lx1.indents.len() - 1) {
        Err(x) => Err(x),
        Ok(lx2) => match lx2.add(TokenType::ENDMARKER, Seq::empty(), (lx.lnum, 0), (lx.lnum, 0)) {
            Err(x) => Err(x),
            Ok(lx3) => Ok(lx3.tokens),
        },
    }
}

/// The tokens of the lines from the `n`-th on.
pub open spec fn lexed(lines: Seq<Seq<char>>, n: int, lx: LexView) -> Result<Seq<TokView>, CompileError>
    decreases lines.len() - n,
{
    let line = if 0 <= n < lines.len() {
        lines[n]
    } else {
        Seq::empty()
    };
    match line_step(lx, line) {
        Err(x) => Err(x),
        Ok((lx1, done)) => if done || n < 0 || n >= lines.len() {
            finished(lx1)
        } else {
            lexed(lines, n + 1, lx1)
        },
    }
}

/// The tokens of a text, as the patterns of the lexer find them.
pub open spec fn tokenized(input: Seq<char>) -> Result<Seq<TokView>, CompileError> {
    if !patterns_accepted() {
        Err(CompileError::BadPattern)
    } else {
        lexed(lines_kept(input, 0), 0, LexView::start())
    }
}

fn same_text(a: &[char], literal: &str) -> (b: bool)
    ensures
        b == (a@ == literal@),
{
    let l = chars_of(literal);
    chars_eq(a, l.as_slice())
}

fn waits_for_def(lx: &Lexer) -> (b: bool)
    ensures
        b == async_waits(lx.deep_view()),
{
    match &lx.stashed {
        Some(t) => is_name(t) && is_async(t),
        None => false,
    }
}

/// Takes a word.
pub fn word(lx: &mut Lexer, token: &[char], s: (u64, u64), e: (u64, u64)) -> (r: Result<(), CompileError>)
    ensures
        match r {
            Ok(_) => word_step(old(lx).deep_view(), token@, (s.0 as nat, s.1 as nat), (e.0 as nat, e.1 as nat))
                == Ok::<LexView, CompileError>(final(lx).deep_view()),
            Err(x) => word_step(old(lx).deep_view(), token@, (s.0 as nat, s.1 as nat), (e.0 as nat, e.1 as nat))
                == Err::<LexView, CompileError>(x),
        },
{
    let is_async_word = same_text(token, "async");
    if (is_async_word || same_text(token, "await")) && lx.async_def {
        let typ = if is_async_word {
            TokenType::ASYNC
        } else {
            TokenType::AWAIT
        };
        return lx.add(typ, token, s, e);
    }
    let text = string_of(token);
    let tok = token_info(TokenType::NAME, text.as_str(), s, e)?;
    if is_async_word && lx.stashed.is_none() {
        lx.stashed = Some(tok);
        return Ok(());
    }
    if same_text(token, "def") && waits_for_def(lx) {
        lx.async_def = true;
        lx.async_def_indent = lx.top();
        lx.stashed = None;
    }
    lx.flush();
    let ghost before = tok_views(lx.tokens@);
    lx.tokens.push(tok);
    assert(tok_views(lx.tokens@) =~= before.push(tok.deep_view()));
    Ok(())
}

/// Takes an operator or a bracket.
pub fn operator(lx: &mut Lexer, token: &[char], s: (u64, u64), e: (u64, u64)) -> (r: Result<(), CompileError>)
    requires
        token@.len() > 0,
    ensures
        match r {
            Ok(_) => operator_step(old(lx).deep_view(), token@, (s.0 as nat, s.1 as nat), (e.0 as nat, e.1 as nat))
                == Ok::<LexView, CompileError>(final(lx).deep_view()),
            Err(x) => operator_step(old(lx).deep_view(), token@, (s.0 as nat, s.1 as nat), (e.0 as nat, e.1 as nat))
                == Err::<LexView, CompileError>(x),
        },
{
    let c = token[0];
    if c == '(' || c == '[' || c == '{' {
        if lx.parenlev == i64::MAX {
            return Err(CompileError::LimitExceeded);
        }
        lx.parenlev = lx.parenlev + 1;
    } else if c == ')' || c == ']' || c == '}' {
        if lx.parenlev == i64::MIN {
            return Err(CompileError::LimitExceeded);
        }
        lx.parenlev = lx.parenlev - 1;
    }
    lx.flush();
    lx.add(TokenType::OP, token, s, e)
}

/// Takes a line break.
pub fn newline(lx: &mut Lexer, token: &[char], s: (u64, u64), e: (u64, u64)) -> (r: Result<(), CompileError>)
    ensures
        match r {
            Ok(_) => newline_step(old(lx).deep_view(), token@, (s.0 as nat, s.1 as nat), (e.0 as nat, e.1 as nat))
                == Ok::<LexView, CompileError>(final(lx).deep_view()),
            Err(x) => newline_step(old(lx).deep_view(), token@, (s.0 as nat, s.1 as nat), (e.0 as nat, e.1 as nat))
                == Err::<LexView, CompileError>(x),
        },
{
    lx.flush();
    if lx.parenlev > 0 {
        lx.add(TokenType::NL, token, s, e)
    } else {
        lx.add(TokenType::NEWLINE, token, s, e)?;
        if lx.async_def {
            lx.async_def_nl = true;
        }
        Ok(())
    }
}

/// Takes the opening of a string in three quotes, with what the pattern
/// for the end of the string has found behind it.
pub fn triple(
    lx: &mut Lexer,
    line: &Vec<char>,
    start: usize,
    end: usize,
    q: SingleDouble,
    found: Option<Vec<char>>,
) -> (r: Result<(usize, bool), CompileError>)
    requires
        start <= end <= line.len() <= 0xffff_ffff,
        (match found {
            Some(m) => Some(m@),
            None => None,
        }) == capture_of(quote_pattern(q), line@.skip(end as int), 0),
    ensures
        match r {
            Ok((pos, done)) => triple_step(old(lx).deep_view(), line@, start as int, end as int, q) == Ok::<
                (LexView, int, bool),
                CompileError,
            >((final(lx).deep_view(), pos as int, done)) && end <= pos <= line.len(),
            Err(x) => triple_step(old(lx).deep_view(), line@, start as int, end as int, q) == Err::<
                (LexView, int, bool),
                CompileError,
            >(x),
        },
{
    lx.endprog = q;
    let lnum = lx.lnum;
    match found {
        Some(m) => {
            let pos = if m.len() <= line.len() - end {
                end + m.len()
            } else {
                line.len()
            };
            lx.add(TokenType::STRING, slice_of(line, start, pos), (lnum, start as u64), (lnum, pos as u64))?;
            Ok((pos, false))
        },
        None => {
            lx.strstart = (lnum, start as u64);
            lx.contstr = crate::text::prefix_of(slice_of(line, start, line.len()), line.len() - start);
            assert(lx.contstr@ =~= line@.skip(start as int));
            Ok((end, true))
        },
    }
}

fn string_opening(token: &[char]) -> (b: bool)
    requires
        token@.len() > 0,
    ensures
        b == opens_string(token@),
{
    let n = token.len();
    let t1 = string_of(vstd::slice::slice_subrange(token, 0, 1));
    let n2 = if n < 2 {
        n
    } else {
        2
    };
    let t2 = string_of(vstd::slice::slice_subrange(token, 0, n2));
    let n3 = if n < 3 {
        n
    } else {
        3
    };
    let t3 = string_of(vstd::slice::slice_subrange(token, 0, n3));
    assert(t1@ =~= token@.take(1));
    assert(t2@ =~= token@.take(n2 as int));
    assert(t3@ =~= token@.take(n3 as int));
    single_quoted(t1.as_str()) || single_quoted(t2.as_str()) || single_quoted(t3.as_str())
}

fn number_token(token: &[char]) -> (b: bool)
    requires
        token@.len() > 0,
    ensures
        b == is_number_token(token@),
{
    let c = token[0];
    ('0' <= c && c <= '9') || (c == '.' && !same_text(token, ".") && !same_text(token, "..."))
}

/// Takes the token from `start` to `end` of the line.
pub fn classify(lx: &mut Lexer, line: &Vec<char>, start: usize, end: usize, patterns: &Patterns) -> (r: Result<
    (usize, bool),
    CompileError,
>)
    requires
        patterns.wf(),
        start < end <= line.len() <= 0xffff_ffff,
    ensures
        match r {
            Ok((pos, done)) => classified(old(lx).deep_view(), line@, start as int, end as int) == Ok::<
                (LexView, int, bool),
                CompileError,
            >((final(lx).deep_view(), pos as int, done)) && end <= pos <= line.len(),
            Err(x) => classified(old(lx).deep_view(), line@, start as int, end as int) == Err::<
                (LexView, int, bool),
                CompileError,
            >(x),
        },
{
    reveal(classified);
    let token = slice_of(line, start, end);
    let initial = token[0];
    let s = (lx.lnum, start as u64);
    let e = (lx.lnum, end as u64);
    let text = string_of(token);
    if triple_quoted(text.as_str()) && !number_token(token) && initial != '\r' && initial != '\n' && initial != '#' {
        match endpats(text.as_str())? {
            Some(q) => {
                let found = patterns.string_end(q, slice_of(line, end, line.len()));
                assert(line@.subrange(end as int, line@.len() as int) =~= line@.skip(end as int));
                triple(lx, line, start, end, q, found)
            },
            None => Err(CompileError::BadStringPrefix),
        }
    } else {
        if number_token(token) {
            lx.add(TokenType::NUMBER, token, s, e)?;
        } else if initial == '\r' || initial == '\n' {
            newline(lx, token, s, e)?;
        } else if initial == '#' {
            lx.flush();
            lx.add(TokenType::COMMENT, token, s, e)?;
        } else if string_opening(token) {
            if token[token.len() - 1] == '\n' {
                return Err(CompileError::BadStringPrefix);
            }
            lx.add(TokenType::STRING, token, s, e)?;
        } else if patterns.starts_name(initial) {
            word(lx, token, s, e)?;
        } else if initial == '\\' {
            lx.continued = true;
        } else {
            operator(lx, token, s, e)?;
        }
        Ok((end, false))
    }
}

fn error_token(lx: &mut Lexer, line: &Vec<char>, pos: usize) -> (r: Result<(usize, bool), CompileError>)
    requires
        pos < line.len() <= 0xffff_ffff,
    ensures
        match r {
            Ok((p, done)) => error_step(old(lx).deep_view(), line@, pos as int) == Ok::<
                (LexView, int, bool),
                CompileError,
            >((final(lx).deep_view(), p as int, done)) && p == pos + 1,
            Err(x) => error_step(old(lx).deep_view(), line@, pos as int) == Err::<(LexView, int, bool), CompileError>(
                x,
            ),
        },
{
    let lnum = lx.lnum;
    let one = slice_of(line, pos, pos + 1);
    assert(one@ =~= seq![line@[pos as int]]);
    lx.add(TokenType::ERRORTOKEN, one, (lnum, pos as u64), (lnum, pos as u64 + 1))?;
    Ok((pos + 1, false))
}

/// Takes the next token of the line behind `pos`, with what the pattern of
/// the next token has found there.
pub fn take_token(lx: &mut Lexer, line: &Vec<char>, pos: usize, found: Option<Vec<char>>, patterns: &Patterns) -> (r:
    Result<(usize, bool), CompileError>)
    requires
        patterns.wf(),
        pos < line.len() <= 0xffff_ffff,
        (match found {
            Some(m) => Some(m@),
            None => None,
        }) == capture_of(pseudo_pattern(), line@.skip(pos as int), 1),
    ensures
        match r {
            Ok((p, done)) => token_step(old(lx).deep_view(), line@, pos as int) == Ok::<
                (LexView, int, bool),
                CompileError,
            >((final(lx).deep_view(), p as int, done)) && pos < p <= line.len(),
            Err(x) => token_step(old(lx).deep_view(), line@, pos as int) == Err::<(LexView, int, bool), CompileError>(
                x,
            ),
        },
{
    reveal(token_step);
    match found {
        None => error_token(lx, line, pos),
        Some(first) => {
            if first.len() == 0 {
                return Ok((line.len(), false));
            }
            let rest = slice_of(line, pos, line.len());
            assert(rest@ =~= line@.skip(pos as int));
            match find_first(rest, first.as_slice()) {
                None => error_token(lx, line, pos),
                Some(at) => classify(lx, line, pos + at, pos + at + first.len(), patterns),
            }
        },
    }
}

/// Takes the tokens of the line from `pos` on.
pub fn scan_tokens(lx: &mut Lexer, line: &Vec<char>, pos: usize, patterns: &Patterns) -> (r: Result<
    (),
    CompileError,
>)
    requires
        patterns.wf(),
        line.len() <= 0xffff_ffff,
    ensures
        match r {
            Ok(_) => tokens_from(old(lx).deep_view(), line@, pos as int) == Ok::<LexView, CompileError>(
                final(lx).deep_view(),
            ),
            Err(x) => tokens_from(old(lx).deep_view(), line@, pos as int) == Err::<LexView, CompileError>(x),
        },
{
    let ghost goal = tokens_from(lx.deep_view(), line@, pos as int);
    let mut at: usize = pos;
    while at < line.len()
        invariant
            patterns.wf(),
            line.len() <= 0xffff_ffff,
            goal == tokens_from(old(lx).deep_view(), line@, pos as int),
            goal == tokens_from(lx.deep_view(), line@, at as int),
        decreases line.len() - at,
    {
        let rest = slice_of(line, at, line.len());
        assert(rest@ =~= line@.skip(at as int));
        let found = patterns.next_token(rest);
        let (next, done) = take_token(lx, line, at, found, patterns)?;
        if done {
            return Ok(());
        }
        at = next;
    }
    Ok(())
}

fn holds(indents: &Vec<u64>, column: u64) -> (b: bool)
    ensures
        b == Seq::new(indents@.len(), |i: int| indents@[i] as nat).contains(column as nat),
{
    let ghost view = Seq::new(indents@.len(), |i: int| indents@[i] as nat);
    let mut i: usize = 0;
    while i < indents.len()
        invariant
            i <= indents.len(),
            view == Seq::new(indents@.len(), |i: int| indents@[i] as nat),
            forall|j: int| 0 <= j < i ==> view[j] != column as nat,
        decreases indents.len() - i,
    {
        if indents[i] == column {
            assert(view[i as int] == column as nat);
            return true;
        }
        i += 1;
    }
    false
}

fn dedent(lx: &mut Lexer, pos: u64, column: u64) -> (r: Result<(), CompileError>)
    ensures
        match r {
            Ok(_) => dedented(old(lx).deep_view(), pos as nat, column as nat) == Ok::<LexView, CompileError>(
                final(lx).deep_view(),
            ),
            Err(x) => dedented(old(lx).deep_view(), pos as nat, column as nat) == Err::<LexView, CompileError>(x),
        },
{
    let ghost goal = dedented(lx.deep_view(), pos as nat, column as nat);
    while column < lx.top() && lx.indents.len() > 0
        invariant
            goal == dedented(old(lx).deep_view(), pos as nat, column as nat),
            goal == dedented(lx.deep_view(), pos as nat, column as nat),
        decreases lx.indents.len(),
    {
        if !holds(&lx.indents, column) {
            return Err(CompileError::Unindent);
        }
        let ghost before = lx.deep_view();
        lx.indents.pop();
        assert(lx.deep_view().indents =~= before.indents.drop_last());
        lx.leave_async(false);
        let lnum = lx.lnum;
        let nothing: Vec<char> = Vec::new();
        assert(nothing@ =~= Seq::<char>::empty());
        lx.add(TokenType::DEDENT, nothing.as_slice(), (lnum, pos), (lnum, pos))?;
    }
    Ok(())
}

fn indent(lx: &mut Lexer, line: &Vec<char>, pos: usize, column: u64) -> (r: Result<(), CompileError>)
    requires
        pos <= line.len() <= 0xffff_ffff,
    ensures
        match r {
            Ok(_) => indented(old(lx).deep_view(), line@, pos as nat, column as nat) == Ok::<LexView, CompileError>(
                final(lx).deep_view(),
            ),
            Err(x) => indented(old(lx).deep_view(), line@, pos as nat, column as nat) == Err::<
                LexView,
                CompileError,
            >(x),
        },
{
    reveal(indented);
    let lnum = lx.lnum;
    if column > lx.top() {
        let ghost before = lx.deep_view();
        lx.indents.push(column);
        assert(lx.deep_view().indents =~= before.indents.push(column as nat));
        let head = slice_of(line, 0, pos);
        assert(head@ =~= line@.take(pos as int));
        lx.add(TokenType::INDENT, head, (lnum, 0), (lnum, pos as u64))?;
    }
    dedent(lx, pos as u64, column)?;
    lx.leave_async(true);
    Ok(())
}

fn blank(lx: &mut Lexer, line: &Vec<char>, pos: usize) -> (r: Result<(), CompileError>)
    requires
        pos < line.len() <= 0xffff_ffff,
    ensures
        match r {
            Ok(_) => blank_step(old(lx).deep_view(), line@, pos as int) == Ok::<LexView, CompileError>(
                final(lx).deep_view(),
            ),
            Err(x) => blank_step(old(lx).deep_view(), line@, pos as int) == Err::<LexView, CompileError>(x),
        },
{
    reveal(blank_step);
    let lnum = lx.lnum;
    let max = line.len();
    let rest = slice_of(line, pos, max);
    assert(rest@ =~= line@.skip(pos as int));
    if line[pos] == '#' {
        let n = trim_len(rest);
        let comment = slice_of(line, pos, pos + n);
        lx.add(TokenType::COMMENT, comment, (lnum, pos as u64), (lnum, (pos + n) as u64))?;
        let tail = slice_of(line, pos + n, max);
        assert(tail@ =~= line@.skip(pos + n));
        lx.add(TokenType::NL, tail, (lnum, (pos + n) as u64), (lnum, max as u64))
    } else {
        lx.add(TokenType::NL, rest, (lnum, pos as u64), (lnum, max as u64))
    }
}

/// Takes a line, with what the pattern for the end of the string that
/// goes on has found at its start. The empty line stands for the end of
/// the text. Returns whether the text is read.
#[verifier::rlimit(60)]
pub fn scan_line(lx: &mut Lexer, line: &Vec<char>, found: Option<Vec<char>>, patterns: &Patterns) -> (r: Result<
    bool,
    CompileError,
>)
    requires
        patterns.wf(),
        (match found {
            Some(m) => Some(m@),
            None => None,
        }) == capture_of(quote_pattern(old(lx).endprog), line@, 0),
    ensures
        match r {
            Ok(done) => line_step(old(lx).deep_view(), line@) == Ok::<(LexView, bool), CompileError>(
                (final(lx).deep_view(), done),
            ),
            Err(x) => line_step(old(lx).deep_view(), line@) == Err::<(LexView, bool), CompileError>(x),
        },
{
    if lx.lnum >= u64::MAX - 1 || line.len() > 0xffff_ffff {
        return Err(CompileError::LimitExceeded);
    }
    lx.lnum = lx.lnum + 1;
    let lnum = lx.lnum;
    if lx.contstr.len() > 0 {
        if line.len() == 0 {
            return Err(CompileError::EofInString);
        }
        match found {
            Some(m) => {
                let pos = if m.len() <= line.len() {
                    m.len()
                } else {
                    line.len()
                };
                let mut text: Vec<char> = Vec::new();
                core::mem::swap(&mut lx.contstr, &mut text);
                let ghost begun = text@;
                let mut more = crate::text::prefix_of(line.as_slice(), pos);
                text.append(&mut more);
                assert(text@ =~= begun + line@.take(pos as int));
                let start = lx.strstart;
                let ghost before = lx.deep_view();
                lx.add(TokenType::STRING, text.as_slice(), start, (lnum, pos as u64))?;
                scan_tokens(lx, line, pos, patterns)?;
                Ok(false)
            },
            None => {
                let mut more = crate::text::prefix_of(line.as_slice(), line.len());
                assert(more@ =~= line@);
                lx.contstr.append(&mut more);
                Ok(false)
            },
        }
    } else if lx.parenlev == 0 && !lx.continued {
        let (pos, column) = measure(line);
        if line.len() == 0 || pos >= line.len() {
            return Ok(true);
        }
        if line[pos] == '#' || line[pos] == '\r' || line[pos] == '\n' {
            blank(lx, line, pos)?;
            Ok(false)
        } else {
            indent(lx, line, pos, column)?;
            scan_tokens(lx, line, pos, patterns)?;
            Ok(false)
        }
    } else if line.len() == 0 {
        Err(CompileError::EofInStatement)
    } else {
        lx.continued = false;
        scan_tokens(lx, line, 0, patterns)?;
        Ok(false)
    }
}

/// Takes the end of the text: returns the tokens.
pub fn finish(lx: &mut Lexer) -> (r: Result<Vec<Tok>, CompileError>)
    ensures
        match r {
            Ok(tokens) => finished(old(lx).deep_view()) == Ok::<Seq<TokView>, CompileError>(tok_views(tokens@)),
            Err(x) => finished(old(lx).deep_view()) == Err::<Seq<TokView>, CompileError>(x),
        },
{
    let ghost start = lx.deep_view();
    lx.flush();
    let ghost flushed = lx.deep_view();
    let lnum = lx.lnum;
    let nothing: Vec<char> = Vec::new();
    assert(nothing@ =~= Seq::<char>::empty());
    let count = lx.indents.len();
    let mut i: usize = 1;
    assert(closed_blocks(flushed, 0) == Ok::<LexView, CompileError>(flushed));
    while i < count
        invariant
            1 <= i,
            count >= 1 ==> i <= count,
            count == 0 ==> i == 1,
            count == flushed.indents.len(),
            nothing@ == Seq::<char>::empty(),
            lnum == flushed.lnum,
            lnum == start.lnum,
            start == old(lx).deep_view(),
            flushed == start.flush(),
            closed_blocks(flushed, i - 1) == Ok::<LexView, CompileError>(lx.deep_view()),
        decreases count - i,
    {
        match lx.add(TokenType::DEDENT, nothing.as_slice(), (lnum, 0), (lnum, 0)) {
            Ok(()) => {},
            Err(x) => {
                proof {
                    assert(closed_blocks(flushed, i as int) == Err::<LexView, CompileError>(x));
                    lemma_closed_blocks_fails(flushed, i as int, count - 1);
                }
                return Err(x);
            },
        }
        i += 1;
    }
    proof {
        if count == 0 {
            assert(closed_blocks(flushed, -1) == Ok::<LexView, CompileError>(flushed));
        }
    }
    lx.add(TokenType::ENDMARKER, nothing.as_slice(), (lnum, 0), (lnum, 0))?;
    let mut tokens: Vec<Tok> = Vec::new();
    core::mem::swap(&mut lx.tokens, &mut tokens);
    Ok(tokens)
}

proof fn lemma_closed_blocks_fails(lx: LexView, k: int, n: int)
    requires
        1 <= k <= n,
        closed_blocks(lx, k) is Err,
    ensures
        closed_blocks(lx, n) == closed_blocks(lx, k),
    decreases n - k,
{
    if k < n {
        lemma_closed_blocks_fails(lx, k, n - 1);
    }
}

/// Splits a text into its tokens.
pub fn tokenize(input: &str) -> (r: Result<Vec<Tok>, CompileError>)
    ensures
        match r {
            Ok(tokens) => tokenized(input@) == Ok::<Seq<TokView>, CompileError>(tok_views(tokens@)),
            Err(x) => tokenized(input@) == Err::<Seq<TokView>, CompileError>(x),
        },
{
    let patterns = Patterns::new()?;
    let lines = split_lines(input);
    let ghost all = line_views(lines@);
    let mut lx = Lexer::new();
    let nothing: Vec<char> = Vec::new();
    assert(nothing@ =~= Seq::<char>::empty());
    let mut n: usize = 0;
    loop
        invariant
            patterns.wf(),
            patterns_accepted(),
            n <= lines.len(),
            all == line_views(lines@),
            all == lines_kept(input@, 0),
            nothing@ == Seq::<char>::empty(),
            tokenized(input@) == lexed(all, n as int, lx.deep_view()),
        decreases lines.len() - n,
    {
        let at_end = n >= lines.len();
        let line = if at_end {
            &nothing
        } else {
            &lines[n]
        };
        assert(line@ == if 0 <= n < all.len() {
            all[n as int]
        } else {
            Seq::<char>::empty()
        });
        let found = patterns.string_end(lx.endprog, line.as_slice());
        let done = scan_line(&mut lx, line, found, &patterns)?;
        if done || at_end {
            return finish(&mut lx);
        }
        n += 1;
    }
}

} // verus!
