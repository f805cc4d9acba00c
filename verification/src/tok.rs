//! The tokens of the source language, and the splitting of a program
//! into its sections.

use vstd::prelude::*;
use vstd::string::*;
use crate::error::CompileError;
use crate::text::{chars_of, push_char, starts_with, string_of, text_is, text_starts_with};

verus! {

/// A token. The location is "line,column-line,column"; the value is the
/// text of the token, for a number its value, and for a string its
/// contents.
#[derive(Debug, PartialEq)]
#[allow(non_camel_case_types)]
#[allow(inconsistent_fields)]
pub enum Tok {
    NAME { location: String, value: String },
    NAMEdef { location: String, value: String },
    NAMEbreak { location: String, value: String },
    NAMEcontinue { location: String, value: String },
    NAMEglobal { location: String, value: String },
    NAMEnonlocal { location: String, value: String },
    NAMEwhile { location: String, value: String },
    NAMEif { location: String, value: String },
    NAMEreturn { location: String, value: String },
    NAMEelif { location: String, value: String },
    NAMEelse { location: String, value: String },
    NAMEor { location: String, value: String },
    NAMEnot { location: String, value: String },
    NAMEpass { location: String, value: String },
    NAMEand { location: String, value: String },
    NAMEin { location: String, value: String },
    NAMEis { location: String, value: String },
    NAMENone { location: String, value: String },
    NAMETrue { location: String, value: String },
    NAMEFalse { location: String, value: String },
    COMMENT { location: String, value: String },
    ENCODING { location: String, value: String },
    NL { location: String, value: String },
    LPAR { location: String, value: String },
    RPAR { location: String, value: String },
    LSQB { location: String, value: String },
    RSQB { location: String, value: String },
    COLON { location: String, value: String },
    COMMA { location: String, value: String },
    SEMI { location: String, value: String },
    PLUS { location: String, value: String },
    MINUS { location: String, value: String },
    STAR { location: String, value: String },
    SLASH { location: String, value: String },
    VBAR { location: String, value: String },
    AMPER { location: String, value: String },
    LESS { location: String, value: String },
    GREATER { location: String, value: String },
    EQUAL { location: String, value: String },
    DOT { location: String, value: String },
    PERCENT { location: String, value: String },
    LBRACE { location: String, value: String },
    RBRACE { location: String, value: String },
    EQEQUAL { location: String, value: String },
    NOTEQUAL { location: String, value: String },
    LESSEQUAL { location: String, value: String },
    GREATEREQUAL { location: String, value: String },
    TILDE { location: String, value: String },
    CIRCUMFLEX { location: String, value: String },
    LEFTSHIFT { location: String, value: String },
    RIGHTSHIFT { location: String, value: String },
    DOUBLESTAR { location: String, value: String },
    PLUSEQUAL { location: String, value: String },
    MINEQUAL { location: String, value: String },
    STAREQUAL { location: String, value: String },
    SLASHEQUAL { location: String, value: String },
    PERCENTEQUAL { location: String, value: String },
    AMPEREQUAL { location: String, value: String },
    VBAREQUAL { location: String, value: String },
    CIRCUMFLEXEQUAL { location: String, value: String },
    LEFTSHIFTEQUAL { location: String, value: String },
    RIGHTSHIFTEQUAL { location: String, value: String },
    DOUBLESTAREQUAL { location: String, value: String },
    DOUBLESLASH { location: String, value: String },
    DOUBLESLASHEQUAL { location: String, value: String },
    AT { location: String, value: String },
    ATEQUAL { location: String, value: String },
    ENDMARKER { location: String, value: String },
    NUMBER { location: String, value: u32 },
    STRING { location: String, value: String },
    NEWLINE { location: String, value: String },
    INDENT { location: String, value: String },
    DEDENT { location: String, value: String },
    RARROW { location: String, value: String },
    ELLIPSIS { location: String, value: String },
    OP { location: String, value: String },
    AWAIT { location: String, value: String },
    ASYNC { location: String, value: String },
    ERRORTOKEN { location: String, value: String },
}

/// The kinds of tokens.
#[derive(Debug, Clone, Copy, PartialEq, Eq, Structural)]
#[allow(non_camel_case_types)]
pub enum TokKind {
    NAME,
    NAMEdef,
    NAMEbreak,
    NAMEcontinue,
    NAMEglobal,
    NAMEnonlocal,
    NAMEwhile,
    NAMEif,
    NAMEreturn,
    NAMEelif,
    NAMEelse,
    NAMEor,
    NAMEnot,
    NAMEpass,
    NAMEand,
    NAMEin,
    NAMEis,
    NAMENone,
    NAMETrue,
    NAMEFalse,
    COMMENT,
    ENCODING,
    NL,
    LPAR,
    RPAR,
    LSQB,
    RSQB,
    COLON,
    COMMA,
    SEMI,
    PLUS,
    MINUS,
    STAR,
    SLASH,
    VBAR,
    AMPER,
    LESS,
    GREATER,
    EQUAL,
    DOT,
    PERCENT,
    LBRACE,
    RBRACE,
    EQEQUAL,
    NOTEQUAL,
    LESSEQUAL,
    GREATEREQUAL,
    TILDE,
    CIRCUMFLEX,
    LEFTSHIFT,
    RIGHTSHIFT,
    DOUBLESTAR,
    PLUSEQUAL,
    MINEQUAL,
    STAREQUAL,
    SLASHEQUAL,
    PERCENTEQUAL,
    AMPEREQUAL,
    VBAREQUAL,
    CIRCUMFLEXEQUAL,
    LEFTSHIFTEQUAL,
    RIGHTSHIFTEQUAL,
    DOUBLESTAREQUAL,
    DOUBLESLASH,
    DOUBLESLASHEQUAL,
    AT,
    ATEQUAL,
    ENDMARKER,
    NUMBER,
    STRING,
    NEWLINE,
    INDENT,
    DEDENT,
    RARROW,
    ELLIPSIS,
    OP,
    AWAIT,
    ASYNC,
    ERRORTOKEN,
}

/// A token as a value: a number has no text, every other token the number
/// 0.
pub struct TokView {
    pub kind: TokKind,
    pub location: Seq<char>,
    pub value: Seq<char>,
    pub number: u32,
}

impl DeepView for Tok {
    type V = TokView;

    open spec fn deep_view(&self) -> TokView {
        match self {
            Tok::NAME { location, value } => TokView {
                kind: TokKind::NAME,
                location: location@,
                value: value@,
                number: 0,
            },
            Tok::NAMEdef { location, value } => TokView {
                kind: TokKind::NAMEdef,
                location: location@,
                value: value@,
                number: 0,
            },
            Tok::NAMEbreak { location, value } => TokView {
                kind: TokKind::NAMEbreak,
                location: location@,
                value: value@,
                number: 0,
            },
            Tok::NAMEcontinue { location, value } => TokView {
                kind: TokKind::NAMEcontinue,
                location: location@,
                value: value@,
                number: 0,
            },
            Tok::NAMEglobal { location, value } => TokView {
                kind: TokKind::NAMEglobal,
                location: location@,
                value: value@,
                number: 0,
            },
            Tok::NAMEnonlocal { location, value } => TokView {
                kind: TokKind::NAMEnonlocal,
                location: location@,
                value: value@,
                number: 0,
            },
            Tok::NAMEwhile { location, value } => TokView {
                kind: TokKind::NAMEwhile,
                location: location@,
                value: value@,
                number: 0,
            },
            Tok::NAMEif { location, value } => TokView {
                kind: TokKind::NAMEif,
                location: location@,
                value: value@,
                number: 0,
            },
            Tok::NAMEreturn { location, value } => TokView {
                kind: TokKind::NAMEreturn,
                location: location@,
                value: value@,
                number: 0,
            },
            Tok::NAMEelif { location, value } => TokView {
                kind: TokKind::NAMEelif,
                location: location@,
                value: value@,
                number: 0,
            },
            Tok::NAMEelse { location, value } => TokView {
                kind: TokKind::NAMEelse,
                location: location@,
                value: value@,
                number: 0,
            },
            Tok::NAMEor { location, value } => TokView {
                kind: TokKind::NAMEor,
                location: location@,
                value: value@,
                number: 0,
            },
            Tok::NAMEnot { location, value } => TokView {
                kind: TokKind::NAMEnot,
                location: location@,
                value: value@,
                number: 0,
            },
            Tok::NAMEpass { location, value } => TokView {
                kind: TokKind::NAMEpass,
                location: location@,
                value: value@,
                number: 0,
            },
            Tok::NAMEand { location, value } => TokView {
                kind: TokKind::NAMEand,
                location: location@,
                value: value@,
                number: 0,
            },
            Tok::NAMEin { location, value } => TokView {
                kind: TokKind::NAMEin,
                location: location@,
                value: value@,
                number: 0,
            },
            Tok::NAMEis { location, value } => TokView {
                kind: TokKind::NAMEis,
                location: location@,
                value: value@,
                number: 0,
            },
            Tok::NAMENone { location, value } => TokView {
                kind: TokKind::NAMENone,
                location: location@,
                value: value@,
                number: 0,
            },
            Tok::NAMETrue { location, value } => TokView {
                kind: TokKind::NAMETrue,
                location: location@,
                value: value@,
                number: 0,
            },
            Tok::NAMEFalse { location, value } => TokView {
                kind: TokKind::NAMEFalse,
                location: location@,
                value: value@,
                number: 0,
            },
            Tok::COMMENT { location, value } => TokView {
                kind: TokKind::COMMENT,
                location: location@,
                value: value@,
                number: 0,
            },
            Tok::ENCODING { location, value } => TokView {
                kind: TokKind::ENCODING,
                location: location@,
                value: value@,
                number: 0,
            },
            Tok::NL { location, value } => TokView {
                kind: TokKind::NL,
                location: location@,
                value: value@,
                number: 0,
            },
            Tok::LPAR { location, value } => TokView {
                kind: TokKind::LPAR,
                location: location@,
                value: value@,
                number: 0,
            },
            Tok::RPAR { location, value } => TokView {
                kind: TokKind::RPAR,
                location: location@,
                value: value@,
                number: 0,
            },
            Tok::LSQB { location, value } => TokView {
                kind: TokKind::LSQB,
                location: location@,
                value: value@,
                number: 0,
            },
            Tok::RSQB { location, value } => TokView {
                kind: TokKind::RSQB,
                location: location@,
                value: value@,
                number: 0,
            },
            Tok::COLON { location, value } => TokView {
                kind: TokKind::COLON,
                location: location@,
                value: value@,
                number: 0,
            },
            Tok::COMMA { location, value } => TokView {
                kind: TokKind::COMMA,
                location: location@,
                value: value@,
                number: 0,
            },
            Tok::SEMI { location, value } => TokView {
                kind: TokKind::SEMI,
                location: location@,
                value: value@,
                number: 0,
            },
            Tok::PLUS { location, value } => TokView {
                kind: TokKind::PLUS,
                location: location@,
                value: value@,
                number: 0,
            },
            Tok::MINUS { location, value } => TokView {
                kind: TokKind::MINUS,
                location: location@,
                value: value@,
                number: 0,
            },
            Tok::STAR { location, value } => TokView {
                kind: TokKind::STAR,
                location: location@,
                value: value@,
                number: 0,
            },
            Tok::SLASH { location, value } => TokView {
                kind: TokKind::SLASH,
                location: location@,
                value: value@,
                number: 0,
            },
            Tok::VBAR { location, value } => TokView {
                kind: TokKind::VBAR,
                location: location@,
                value: value@,
                number: 0,
            },
            Tok::AMPER { location, value } => TokView {
                kind: TokKind::AMPER,
                location: location@,
                value: value@,
                number: 0,
            },
            Tok::LESS { location, value } => TokView {
                kind: TokKind::LESS,
                location: location@,
                value: value@,
                number: 0,
            },
            Tok::GREATER { location, value } => TokView {
                kind: TokKind::GREATER,
                location: location@,
                value: value@,
                number: 0,
            },
            Tok::EQUAL { location, value } => TokView {
                kind: TokKind::EQUAL,
                location: location@,
                value: value@,
                number: 0,
            },
            Tok::DOT { location, value } => TokView {
                kind: TokKind::DOT,
                location: location@,
                value: value@,
                number: 0,
            },
            Tok::PERCENT { location, value } => TokView {
                kind: TokKind::PERCENT,
                location: location@,
                value: value@,
                number: 0,
            },
            Tok::LBRACE { location, value } => TokView {
                kind: TokKind::LBRACE,
                location: location@,
                value: value@,
                number: 0,
            },
            Tok::RBRACE { location, value } => TokView {
                kind: TokKind::RBRACE,
                location: location@,
                value: value@,
                number: 0,
            },
            Tok::EQEQUAL { location, value } => TokView {
                kind: TokKind::EQEQUAL,
                location: location@,
                value: value@,
                number: 0,
            },
            Tok::NOTEQUAL { location, value } => TokView {
                kind: TokKind::NOTEQUAL,
                location: location@,
                value: value@,
                number: 0,
            },
            Tok::LESSEQUAL { location, value } => TokView {
                kind: TokKind::LESSEQUAL,
                location: location@,
                value: value@,
                number: 0,
            },
            Tok::GREATEREQUAL { location, value } => TokView {
                kind: TokKind::GREATEREQUAL,
                location: location@,
                value: value@,
                number: 0,
            },
            Tok::TILDE { location, value } => TokView {
                kind: TokKind::TILDE,
                location: location@,
                value: value@,
                number: 0,
            },
            Tok::CIRCUMFLEX { location, value } => TokView {
                kind: TokKind::CIRCUMFLEX,
                location: location@,
                value: value@,
                number: 0,
            },
            Tok::LEFTSHIFT { location, value } => TokView {
                kind: TokKind::LEFTSHIFT,
                location: location@,
                value: value@,
                number: 0,
            },
            Tok::RIGHTSHIFT { location, value } => TokView {
                kind: TokKind::RIGHTSHIFT,
                location: location@,
                value: value@,
                number: 0,
            },
            Tok::DOUBLESTAR { location, value } => TokView {
                kind: TokKind::DOUBLESTAR,
                location: location@,
                value: value@,
                number: 0,
            },
            Tok::PLUSEQUAL { location, value } => TokView {
                kind: TokKind::PLUSEQUAL,
                location: location@,
                value: value@,
                number: 0,
            },
            Tok::MINEQUAL { location, value } => TokView {
                kind: TokKind::MINEQUAL,
                location: location@,
                value: value@,
                number: 0,
            },
            Tok::STAREQUAL { location, value } => TokView {
                kind: TokKind::STAREQUAL,
                location: location@,
                value: value@,
                number: 0,
            },
            Tok::SLASHEQUAL { location, value } => TokView {
                kind: TokKind::SLASHEQUAL,
                location: location@,
                value: value@,
                number: 0,
            },
            Tok::PERCENTEQUAL { location, value } => TokView {
                kind: TokKind::PERCENTEQUAL,
                location: location@,
                value: value@,
                number: 0,
            },
            Tok::AMPEREQUAL { location, value } => TokView {
                kind: TokKind::AMPEREQUAL,
                location: location@,
                value: value@,
                number: 0,
            },
            Tok::VBAREQUAL { location, value } => TokView {
                kind: TokKind::VBAREQUAL,
                location: location@,
                value: value@,
                number: 0,
            },
            Tok::CIRCUMFLEXEQUAL { location, value } => TokView {
                kind: TokKind::CIRCUMFLEXEQUAL,
                location: location@,
                value: value@,
                number: 0,
            },
            Tok::LEFTSHIFTEQUAL { location, value } => TokView {
                kind: TokKind::LEFTSHIFTEQUAL,
                location: location@,
                value: value@,
                number: 0,
            },
            Tok::RIGHTSHIFTEQUAL { location, value } => TokView {
                kind: TokKind::RIGHTSHIFTEQUAL,
                location: location@,
                value: value@,
                number: 0,
            },
            Tok::DOUBLESTAREQUAL { location, value } => TokView {
                kind: TokKind::DOUBLESTAREQUAL,
                location: location@,
                value: value@,
                number: 0,
            },
            Tok::DOUBLESLASH { location, value } => TokView {
                kind: TokKind::DOUBLESLASH,
                location: location@,
                value: value@,
                number: 0,
            },
            Tok::DOUBLESLASHEQUAL { location, value } => TokView {
                kind: TokKind::DOUBLESLASHEQUAL,
                location: location@,
                value: value@,
                number: 0,
            },
            Tok::AT { location, value } => TokView {
                kind: TokKind::AT,
                location: location@,
                value: value@,
                number: 0,
            },
            Tok::ATEQUAL { location, value } => TokView {
                kind: TokKind::ATEQUAL,
                location: location@,
                value: value@,
                number: 0,
            },
            Tok::ENDMARKER { location, value } => TokView {
                kind: TokKind::ENDMARKER,
                location: location@,
                value: value@,
                number: 0,
            },
            Tok::NUMBER { location, value } => TokView {
                kind: TokKind::NUMBER,
                location: location@,
                value: Seq::empty(),
                number: *value,
            },
            Tok::STRING { location, value } => TokView {
                kind: TokKind::STRING,
                location: location@,
                value: value@,
                number: 0,
            },
            Tok::NEWLINE { location, value } => TokView {
                kind: TokKind::NEWLINE,
                location: location@,
                value: value@,
                number: 0,
            },
            Tok::INDENT { location, value } => TokView {
                kind: TokKind::INDENT,
                location: location@,
                value: value@,
                number: 0,
            },
            Tok::DEDENT { location, value } => TokView {
                kind: TokKind::DEDENT,
                location: location@,
                value: value@,
                number: 0,
            },
            Tok::RARROW { location, value } => TokView {
                kind: TokKind::RARROW,
                location: location@,
                value: value@,
                number: 0,
            },
            Tok::ELLIPSIS { location, value } => TokView {
                kind: TokKind::ELLIPSIS,
                location: location@,
                value: value@,
                number: 0,
            },
            Tok::OP { location, value } => TokView {
                kind: TokKind::OP,
                location: location@,
                value: value@,
                number: 0,
            },
            Tok::AWAIT { location, value } => TokView {
                kind: TokKind::AWAIT,
                location: location@,
                value: value@,
                number: 0,
            },
            Tok::ASYNC { location, value } => TokView {
                kind: TokKind::ASYNC,
                location: location@,
                value: value@,
                number: 0,
            },
            Tok::ERRORTOKEN { location, value } => TokView {
                kind: TokKind::ERRORTOKEN,
                location: location@,
                value: value@,
                number: 0,
            },
        }
    }
}

impl Clone for Tok {
    fn clone(&self) -> (r: Tok)
        ensures
            r.deep_view() == self.deep_view(),
    {
        match self {
            Tok::NAME { location, value } => Tok::NAME { location: location.clone(), value: value.clone() },
            Tok::NAMEdef { location, value } => Tok::NAMEdef { location: location.clone(), value: value.clone() },
            Tok::NAMEbreak { location, value } => Tok::NAMEbreak { location: location.clone(), value: value.clone() },
            Tok::NAMEcontinue { location, value } => Tok::NAMEcontinue { location: location.clone(), value: value.clone() },
            Tok::NAMEglobal { location, value } => Tok::NAMEglobal { location: location.clone(), value: value.clone() },
            Tok::NAMEnonlocal { location, value } => Tok::NAMEnonlocal { location: location.clone(), value: value.clone() },
            Tok::NAMEwhile { location, value } => Tok::NAMEwhile { location: location.clone(), value: value.clone() },
            Tok::NAMEif { location, value } => Tok::NAMEif { location: location.clone(), value: value.clone() },
            Tok::NAMEreturn { location, value } => Tok::NAMEreturn { location: location.clone(), value: value.clone() },
            Tok::NAMEelif { location, value } => Tok::NAMEelif { location: location.clone(), value: value.clone() },
            Tok::NAMEelse { location, value } => Tok::NAMEelse { location: location.clone(), value: value.clone() },
            Tok::NAMEor { location, value } => Tok::NAMEor { location: location.clone(), value: value.clone() },
            Tok::NAMEnot { location, value } => Tok::NAMEnot { location: location.clone(), value: value.clone() },
            Tok::NAMEpass { location, value } => Tok::NAMEpass { location: location.clone(), value: value.clone() },
            Tok::NAMEand { location, value } => Tok::NAMEand { location: location.clone(), value: value.clone() },
            Tok::NAMEin { location, value } => Tok::NAMEin { location: location.clone(), value: value.clone() },
            Tok::NAMEis { location, value } => Tok::NAMEis { location: location.clone(), value: value.clone() },
            Tok::NAMENone { location, value } => Tok::NAMENone { location: location.clone(), value: value.clone() },
            Tok::NAMETrue { location, value } => Tok::NAMETrue { location: location.clone(), value: value.clone() },
            Tok::NAMEFalse { location, value } => Tok::NAMEFalse { location: location.clone(), value: value.clone() },
            Tok::COMMENT { location, value } => Tok::COMMENT { location: location.clone(), value: value.clone() },
            Tok::ENCODING { location, value } => Tok::ENCODING { location: location.clone(), value: value.clone() },
            Tok::NL { location, value } => Tok::NL { location: location.clone(), value: value.clone() },
            Tok::LPAR { location, value } => Tok::LPAR { location: location.clone(), value: value.clone() },
            Tok::RPAR { location, value } => Tok::RPAR { location: location.clone(), value: value.clone() },
            Tok::LSQB { location, value } => Tok::LSQB { location: location.clone(), value: value.clone() },
            Tok::RSQB { location, value } => Tok::RSQB { location: location.clone(), value: value.clone() },
            Tok::COLON { location, value } => Tok::COLON { location: location.clone(), value: value.clone() },
            Tok::COMMA { location, value } => Tok::COMMA { location: location.clone(), value: value.clone() },
            Tok::SEMI { location, value } => Tok::SEMI { location: location.clone(), value: value.clone() },
            Tok::PLUS { location, value } => Tok::PLUS { location: location.clone(), value: value.clone() },
            Tok::MINUS { location, value } => Tok::MINUS { location: location.clone(), value: value.clone() },
            Tok::STAR { location, value } => Tok::STAR { location: location.clone(), value: value.clone() },
            Tok::SLASH { location, value } => Tok::SLASH { location: location.clone(), value: value.clone() },
            Tok::VBAR { location, value } => Tok::VBAR { location: location.clone(), value: value.clone() },
            Tok::AMPER { location, value } => Tok::AMPER { location: location.clone(), value: value.clone() },
            Tok::LESS { location, value } => Tok::LESS { location: location.clone(), value: value.clone() },
            Tok::GREATER { location, value } => Tok::GREATER { location: location.clone(), value: value.clone() },
            Tok::EQUAL { location, value } => Tok::EQUAL { location: location.clone(), value: value.clone() },
            Tok::DOT { location, value } => Tok::DOT { location: location.clone(), value: value.clone() },
            Tok::PERCENT { location, value } => Tok::PERCENT { location: location.clone(), value: value.clone() },
            Tok::LBRACE { location, value } => Tok::LBRACE { location: location.clone(), value: value.clone() },
            Tok::RBRACE { location, value } => Tok::RBRACE { location: location.clone(), value: value.clone() },
            Tok::EQEQUAL { location, value } => Tok::EQEQUAL { location: location.clone(), value: value.clone() },
            Tok::NOTEQUAL { location, value } => Tok::NOTEQUAL { location: location.clone(), value: value.clone() },
            Tok::LESSEQUAL { location, value } => Tok::LESSEQUAL { location: location.clone(), value: value.clone() },
            Tok::GREATEREQUAL { location, value } => Tok::GREATEREQUAL { location: location.clone(), value: value.clone() },
            Tok::TILDE { location, value } => Tok::TILDE { location: location.clone(), value: value.clone() },
            Tok::CIRCUMFLEX { location, value } => Tok::CIRCUMFLEX { location: location.clone(), value: value.clone() },
            Tok::LEFTSHIFT { location, value } => Tok::LEFTSHIFT { location: location.clone(), value: value.clone() },
            Tok::RIGHTSHIFT { location, value } => Tok::RIGHTSHIFT { location: location.clone(), value: value.clone() },
            Tok::DOUBLESTAR { location, value } => Tok::DOUBLESTAR { location: location.clone(), value: value.clone() },
            Tok::PLUSEQUAL { location, value } => Tok::PLUSEQUAL { location: location.clone(), value: value.clone() },
            Tok::MINEQUAL { location, value } => Tok::MINEQUAL { location: location.clone(), value: value.clone() },
            Tok::STAREQUAL { location, value } => Tok::STAREQUAL { location: location.clone(), value: value.clone() },
            Tok::SLASHEQUAL { location, value } => Tok::SLASHEQUAL { location: location.clone(), value: value.clone() },
            Tok::PERCENTEQUAL { location, value } => Tok::PERCENTEQUAL { location: location.clone(), value: value.clone() },
            Tok::AMPEREQUAL { location, value } => Tok::AMPEREQUAL { location: location.clone(), value: value.clone() },
            Tok::VBAREQUAL { location, value } => Tok::VBAREQUAL { location: location.clone(), value: value.clone() },
            Tok::CIRCUMFLEXEQUAL { location, value } => Tok::CIRCUMFLEXEQUAL { location: location.clone(), value: value.clone() },
            Tok::LEFTSHIFTEQUAL { location, value } => Tok::LEFTSHIFTEQUAL { location: location.clone(), value: value.clone() },
            Tok::RIGHTSHIFTEQUAL { location, value } => Tok::RIGHTSHIFTEQUAL { location: location.clone(), value: value.clone() },
            Tok::DOUBLESTAREQUAL { location, value } => Tok::DOUBLESTAREQUAL { location: location.clone(), value: value.clone() },
            Tok::DOUBLESLASH { location, value } => Tok::DOUBLESLASH { location: location.clone(), value: value.clone() },
            Tok::DOUBLESLASHEQUAL { location, value } => Tok::DOUBLESLASHEQUAL { location: location.clone(), value: value.clone() },
            Tok::AT { location, value } => Tok::AT { location: location.clone(), value: value.clone() },
            Tok::ATEQUAL { location, value } => Tok::ATEQUAL { location: location.clone(), value: value.clone() },
            Tok::ENDMARKER { location, value } => Tok::ENDMARKER { location: location.clone(), value: value.clone() },
            Tok::NUMBER { location, value } => Tok::NUMBER { location: location.clone(), value: *value },
            Tok::STRING { location, value } => Tok::STRING { location: location.clone(), value: value.clone() },
            Tok::NEWLINE { location, value } => Tok::NEWLINE { location: location.clone(), value: value.clone() },
            Tok::INDENT { location, value } => Tok::INDENT { location: location.clone(), value: value.clone() },
            Tok::DEDENT { location, value } => Tok::DEDENT { location: location.clone(), value: value.clone() },
            Tok::RARROW { location, value } => Tok::RARROW { location: location.clone(), value: value.clone() },
            Tok::ELLIPSIS { location, value } => Tok::ELLIPSIS { location: location.clone(), value: value.clone() },
            Tok::OP { location, value } => Tok::OP { location: location.clone(), value: value.clone() },
            Tok::AWAIT { location, value } => Tok::AWAIT { location: location.clone(), value: value.clone() },
            Tok::ASYNC { location, value } => Tok::ASYNC { location: location.clone(), value: value.clone() },
            Tok::ERRORTOKEN { location, value } => Tok::ERRORTOKEN { location: location.clone(), value: value.clone() },
        }
    }
}

impl Tok {
    /// The kind of the token.
    pub fn kind(&self) -> (k: TokKind)
        ensures
            k == self.deep_view().kind,
    {
        match self {
            Tok::NAME { .. } => TokKind::NAME,
            Tok::NAMEdef { .. } => TokKind::NAMEdef,
            Tok::NAMEbreak { .. } => TokKind::NAMEbreak,
            Tok::NAMEcontinue { .. } => TokKind::NAMEcontinue,
            Tok::NAMEglobal { .. } => TokKind::NAMEglobal,
            Tok::NAMEnonlocal { .. } => TokKind::NAMEnonlocal,
            Tok::NAMEwhile { .. } => TokKind::NAMEwhile,
            Tok::NAMEif { .. } => TokKind::NAMEif,
            Tok::NAMEreturn { .. } => TokKind::NAMEreturn,
            Tok::NAMEelif { .. } => TokKind::NAMEelif,
            Tok::NAMEelse { .. } => TokKind::NAMEelse,
            Tok::NAMEor { .. } => TokKind::NAMEor,
            Tok::NAMEnot { .. } => TokKind::NAMEnot,
            Tok::NAMEpass { .. } => TokKind::NAMEpass,
            Tok::NAMEand { .. } => TokKind::NAMEand,
            Tok::NAMEin { .. } => TokKind::NAMEin,
            Tok::NAMEis { .. } => TokKind::NAMEis,
            Tok::NAMENone { .. } => TokKind::NAMENone,
            Tok::NAMETrue { .. } => TokKind::NAMETrue,
            Tok::NAMEFalse { .. } => TokKind::NAMEFalse,
            Tok::COMMENT { .. } => TokKind::COMMENT,
            Tok::ENCODING { .. } => TokKind::ENCODING,
            Tok::NL { .. } => TokKind::NL,
            Tok::LPAR { .. } => TokKind::LPAR,
            Tok::RPAR { .. } => TokKind::RPAR,
            Tok::LSQB { .. } => TokKind::LSQB,
            Tok::RSQB { .. } => TokKind::RSQB,
            Tok::COLON { .. } => TokKind::COLON,
            Tok::COMMA { .. } => TokKind::COMMA,
            Tok::SEMI { .. } => TokKind::SEMI,
            Tok::PLUS { .. } => TokKind::PLUS,
            Tok::MINUS { .. } => TokKind::MINUS,
            Tok::STAR { .. } => TokKind::STAR,
            Tok::SLASH { .. } => TokKind::SLASH,
            Tok::VBAR { .. } => TokKind::VBAR,
            Tok::AMPER { .. } => TokKind::AMPER,
            Tok::LESS { .. } => TokKind::LESS,
            Tok::GREATER { .. } => TokKind::GREATER,
            Tok::EQUAL { .. } => TokKind::EQUAL,
            Tok::DOT { .. } => TokKind::DOT,
            Tok::PERCENT { .. } => TokKind::PERCENT,
            Tok::LBRACE { .. } => TokKind::LBRACE,
            Tok::RBRACE { .. } => TokKind::RBRACE,
            Tok::EQEQUAL { .. } => TokKind::EQEQUAL,
            Tok::NOTEQUAL { .. } => TokKind::NOTEQUAL,
            Tok::LESSEQUAL { .. } => TokKind::LESSEQUAL,
            Tok::GREATEREQUAL { .. } => TokKind::GREATEREQUAL,
            Tok::TILDE { .. } => TokKind::TILDE,
            Tok::CIRCUMFLEX { .. } => TokKind::CIRCUMFLEX,
            Tok::LEFTSHIFT { .. } => TokKind::LEFTSHIFT,
            Tok::RIGHTSHIFT { .. } => TokKind::RIGHTSHIFT,
            Tok::DOUBLESTAR { .. } => TokKind::DOUBLESTAR,
            Tok::PLUSEQUAL { .. } => TokKind::PLUSEQUAL,
            Tok::MINEQUAL { .. } => TokKind::MINEQUAL,
            Tok::STAREQUAL { .. } => TokKind::STAREQUAL,
            Tok::SLASHEQUAL { .. } => TokKind::SLASHEQUAL,
            Tok::PERCENTEQUAL { .. } => TokKind::PERCENTEQUAL,
            Tok::AMPEREQUAL { .. } => TokKind::AMPEREQUAL,
            Tok::VBAREQUAL { .. } => TokKind::VBAREQUAL,
            Tok::CIRCUMFLEXEQUAL { .. } => TokKind::CIRCUMFLEXEQUAL,
            Tok::LEFTSHIFTEQUAL { .. } => TokKind::LEFTSHIFTEQUAL,
            Tok::RIGHTSHIFTEQUAL { .. } => TokKind::RIGHTSHIFTEQUAL,
            Tok::DOUBLESTAREQUAL { .. } => TokKind::DOUBLESTAREQUAL,
            Tok::DOUBLESLASH { .. } => TokKind::DOUBLESLASH,
            Tok::DOUBLESLASHEQUAL { .. } => TokKind::DOUBLESLASHEQUAL,
            Tok::AT { .. } => TokKind::AT,
            Tok::ATEQUAL { .. } => TokKind::ATEQUAL,
            Tok::ENDMARKER { .. } => TokKind::ENDMARKER,
            Tok::NUMBER { .. } => TokKind::NUMBER,
            Tok::STRING { .. } => TokKind::STRING,
            Tok::NEWLINE { .. } => TokKind::NEWLINE,
            Tok::INDENT { .. } => TokKind::INDENT,
            Tok::DEDENT { .. } => TokKind::DEDENT,
            Tok::RARROW { .. } => TokKind::RARROW,
            Tok::ELLIPSIS { .. } => TokKind::ELLIPSIS,
            Tok::OP { .. } => TokKind::OP,
            Tok::AWAIT { .. } => TokKind::AWAIT,
            Tok::ASYNC { .. } => TokKind::ASYNC,
            Tok::ERRORTOKEN { .. } => TokKind::ERRORTOKEN,
        }
    }

    /// Where the token stands in the source.
    pub fn location(&self) -> (s: &String)
        ensures
            s@ == self.deep_view().location,
    {
        match self {
            Tok::NAME { location, .. } => location,
            Tok::NAMEdef { location, .. } => location,
            Tok::NAMEbreak { location, .. } => location,
            Tok::NAMEcontinue { location, .. } => location,
            Tok::NAMEglobal { location, .. } => location,
            Tok::NAMEnonlocal { location, .. } => location,
            Tok::NAMEwhile { location, .. } => location,
            Tok::NAMEif { location, .. } => location,
            Tok::NAMEreturn { location, .. } => location,
            Tok::NAMEelif { location, .. } => location,
            Tok::NAMEelse { location, .. } => location,
            Tok::NAMEor { location, .. } => location,
            Tok::NAMEnot { location, .. } => location,
            Tok::NAMEpass { location, .. } => location,
            Tok::NAMEand { location, .. } => location,
            Tok::NAMEin { location, .. } => location,
            Tok::NAMEis { location, .. } => location,
            Tok::NAMENone { location, .. } => location,
            Tok::NAMETrue { location, .. } => location,
            Tok::NAMEFalse { location, .. } => location,
            Tok::COMMENT { location, .. } => location,
            Tok::ENCODING { location, .. } => location,
            Tok::NL { location, .. } => location,
            Tok::LPAR { location, .. } => location,
            Tok::RPAR { location, .. } => location,
            Tok::LSQB { location, .. } => location,
            Tok::RSQB { location, .. } => location,
            Tok::COLON { location, .. } => location,
            Tok::COMMA { location, .. } => location,
            Tok::SEMI { location, .. } => location,
            Tok::PLUS { location, .. } => location,
            Tok::MINUS { location, .. } => location,
            Tok::STAR { location, .. } => location,
            Tok::SLASH { location, .. } => location,
            Tok::VBAR { location, .. } => location,
            Tok::AMPER { location, .. } => location,
            Tok::LESS { location, .. } => location,
            Tok::GREATER { location, .. } => location,
            Tok::EQUAL { location, .. } => location,
            Tok::DOT { location, .. } => location,
            Tok::PERCENT { location, .. } => location,
            Tok::LBRACE { location, .. } => location,
            Tok::RBRACE { location, .. } => location,
            Tok::EQEQUAL { location, .. } => location,
            Tok::NOTEQUAL { location, .. } => location,
            Tok::LESSEQUAL { location, .. } => location,
            Tok::GREATEREQUAL { location, .. } => location,
            Tok::TILDE { location, .. } => location,
            Tok::CIRCUMFLEX { location, .. } => location,
            Tok::LEFTSHIFT { location, .. } => location,
            Tok::RIGHTSHIFT { location, .. } => location,
            Tok::DOUBLESTAR { location, .. } => location,
            Tok::PLUSEQUAL { location, .. } => location,
            Tok::MINEQUAL { location, .. } => location,
            Tok::STAREQUAL { location, .. } => location,
            Tok::SLASHEQUAL { location, .. } => location,
            Tok::PERCENTEQUAL { location, .. } => location,
            Tok::AMPEREQUAL { location, .. } => location,
            Tok::VBAREQUAL { location, .. } => location,
            Tok::CIRCUMFLEXEQUAL { location, .. } => location,
            Tok::LEFTSHIFTEQUAL { location, .. } => location,
            Tok::RIGHTSHIFTEQUAL { location, .. } => location,
            Tok::DOUBLESTAREQUAL { location, .. } => location,
            Tok::DOUBLESLASH { location, .. } => location,
            Tok::DOUBLESLASHEQUAL { location, .. } => location,
            Tok::AT { location, .. } => location,
            Tok::ATEQUAL { location, .. } => location,
            Tok::ENDMARKER { location, .. } => location,
            Tok::NUMBER { location, .. } => location,
            Tok::STRING { location, .. } => location,
            Tok::NEWLINE { location, .. } => location,
            Tok::INDENT { location, .. } => location,
            Tok::DEDENT { location, .. } => location,
            Tok::RARROW { location, .. } => location,
            Tok::ELLIPSIS { location, .. } => location,
            Tok::OP { location, .. } => location,
            Tok::AWAIT { location, .. } => location,
            Tok::ASYNC { location, .. } => location,
            Tok::ERRORTOKEN { location, .. } => location,
        }
    }

    /// The token of a kind with a text. For a number the text counts for
    /// nothing.
    pub fn with_text(kind: TokKind, location: String, value: String) -> (t: Tok)
        ensures
            t.deep_view() == (TokView {
                kind,
                location: location@,
                value: if kind == TokKind::NUMBER {
                    Seq::empty()
                } else {
                    value@
                },
                number: 0,
            }),
    {
        match kind {
            TokKind::NAME => Tok::NAME { location, value },
            TokKind::NAMEdef => Tok::NAMEdef { location, value },
            TokKind::NAMEbreak => Tok::NAMEbreak { location, value },
            TokKind::NAMEcontinue => Tok::NAMEcontinue { location, value },
            TokKind::NAMEglobal => Tok::NAMEglobal { location, value },
            TokKind::NAMEnonlocal => Tok::NAMEnonlocal { location, value },
            TokKind::NAMEwhile => Tok::NAMEwhile { location, value },
            TokKind::NAMEif => Tok::NAMEif { location, value },
            TokKind::NAMEreturn => Tok::NAMEreturn { location, value },
            TokKind::NAMEelif => Tok::NAMEelif { location, value },
            TokKind::NAMEelse => Tok::NAMEelse { location, value },
            TokKind::NAMEor => Tok::NAMEor { location, value },
            TokKind::NAMEnot => Tok::NAMEnot { location, value },
            TokKind::NAMEpass => Tok::NAMEpass { location, value },
            TokKind::NAMEand => Tok::NAMEand { location, value },
            TokKind::NAMEin => Tok::NAMEin { location, value },
            TokKind::NAMEis => Tok::NAMEis { location, value },
            TokKind::NAMENone => Tok::NAMENone { location, value },
            TokKind::NAMETrue => Tok::NAMETrue { location, value },
            TokKind::NAMEFalse => Tok::NAMEFalse { location, value },
            TokKind::COMMENT => Tok::COMMENT { location, value },
            TokKind::ENCODING => Tok::ENCODING { location, value },
            TokKind::NL => Tok::NL { location, value },
            TokKind::LPAR => Tok::LPAR { location, value },
            TokKind::RPAR => Tok::RPAR { location, value },
            TokKind::LSQB => Tok::LSQB { location, value },
            TokKind::RSQB => Tok::RSQB { location, value },
            TokKind::COLON => Tok::COLON { location, value },
            TokKind::COMMA => Tok::COMMA { location, value },
            TokKind::SEMI => Tok::SEMI { location, value },
            TokKind::PLUS => Tok::PLUS { location, value },
            TokKind::MINUS => Tok::MINUS { location, value },
            TokKind::STAR => Tok::STAR { location, value },
            TokKind::SLASH => Tok::SLASH { location, value },
            TokKind::VBAR => Tok::VBAR { location, value },
            TokKind::AMPER => Tok::AMPER { location, value },
            TokKind::LESS => Tok::LESS { location, value },
            TokKind::GREATER => Tok::GREATER { location, value },
            TokKind::EQUAL => Tok::EQUAL { location, value },
            TokKind::DOT => Tok::DOT { location, value },
            TokKind::PERCENT => Tok::PERCENT { location, value },
            TokKind::LBRACE => Tok::LBRACE { location, value },
            TokKind::RBRACE => Tok::RBRACE { location, value },
            TokKind::EQEQUAL => Tok::EQEQUAL { location, value },
            TokKind::NOTEQUAL => Tok::NOTEQUAL { location, value },
            TokKind::LESSEQUAL => Tok::LESSEQUAL { location, value },
            TokKind::GREATEREQUAL => Tok::GREATEREQUAL { location, value },
            TokKind::TILDE => Tok::TILDE { location, value },
            TokKind::CIRCUMFLEX => Tok::CIRCUMFLEX { location, value },
            TokKind::LEFTSHIFT => Tok::LEFTSHIFT { location, value },
            TokKind::RIGHTSHIFT => Tok::RIGHTSHIFT { location, value },
            TokKind::DOUBLESTAR => Tok::DOUBLESTAR { location, value },
            TokKind::PLUSEQUAL => Tok::PLUSEQUAL { location, value },
            TokKind::MINEQUAL => Tok::MINEQUAL { location, value },
            TokKind::STAREQUAL => Tok::STAREQUAL { location, value },
            TokKind::SLASHEQUAL => Tok::SLASHEQUAL { location, value },
            TokKind::PERCENTEQUAL => Tok::PERCENTEQUAL { location, value },
            TokKind::AMPEREQUAL => Tok::AMPEREQUAL { location, value },
            TokKind::VBAREQUAL => Tok::VBAREQUAL { location, value },
            TokKind::CIRCUMFLEXEQUAL => Tok::CIRCUMFLEXEQUAL { location, value },
            TokKind::LEFTSHIFTEQUAL => Tok::LEFTSHIFTEQUAL { location, value },
            TokKind::RIGHTSHIFTEQUAL => Tok::RIGHTSHIFTEQUAL { location, value },
            TokKind::DOUBLESTAREQUAL => Tok::DOUBLESTAREQUAL { location, value },
            TokKind::DOUBLESLASH => Tok::DOUBLESLASH { location, value },
            TokKind::DOUBLESLASHEQUAL => Tok::DOUBLESLASHEQUAL { location, value },
            TokKind::AT => Tok::AT { location, value },
            TokKind::ATEQUAL => Tok::ATEQUAL { location, value },
            TokKind::ENDMARKER => Tok::ENDMARKER { location, value },
            TokKind::NUMBER => {
                let t = Tok::NUMBER { location, value: 0 };
                assert(t.deep_view().value =~= Seq::<char>::empty());
                t
            },
            TokKind::STRING => Tok::STRING { location, value },
            TokKind::NEWLINE => Tok::NEWLINE { location, value },
            TokKind::INDENT => Tok::INDENT { location, value },
            TokKind::DEDENT => Tok::DEDENT { location, value },
            TokKind::RARROW => Tok::RARROW { location, value },
            TokKind::ELLIPSIS => Tok::ELLIPSIS { location, value },
            TokKind::OP => Tok::OP { location, value },
            TokKind::AWAIT => Tok::AWAIT { location, value },
            TokKind::ASYNC => Tok::ASYNC { location, value },
            TokKind::ERRORTOKEN => Tok::ERRORTOKEN { location, value },
        }
    }
}

/// The kind of the token for a word: each keyword has a kind of its own.
pub open spec fn word_kind(word: Seq<char>) -> TokKind {
    if word == "def"@ {
        TokKind::NAMEdef
    } else if word == "break"@ {
        TokKind::NAMEbreak
    } else if word == "continue"@ {
        TokKind::NAMEcontinue
    } else if word == "global"@ {
        TokKind::NAMEglobal
    } else if word == "nonlocal"@ {
        TokKind::NAMEnonlocal
    } else if word == "while"@ {
        TokKind::NAMEwhile
    } else if word == "if"@ {
        TokKind::NAMEif
    } else if word == "return"@ {
        TokKind::NAMEreturn
    } else if word == "elif"@ {
        TokKind::NAMEelif
    } else if word == "else"@ {
        TokKind::NAMEelse
    } else if word == "or"@ {
        TokKind::NAMEor
    } else if word == "not"@ {
        TokKind::NAMEnot
    } else if word == "pass"@ {
        TokKind::NAMEpass
    } else if word == "and"@ {
        TokKind::NAMEand
    } else if word == "in"@ {
        TokKind::NAMEin
    } else if word == "is"@ {
        TokKind::NAMEis
    } else if word == "None"@ {
        TokKind::NAMENone
    } else if word == "True"@ {
        TokKind::NAMETrue
    } else if word == "False"@ {
        TokKind::NAMEFalse
    } else {
        TokKind::NAME
    }
}

/// The kind of the token with the given name of a kind, if there is one.
/// A name is a word, so the kind for `NAME` depends on the word.
pub open spec fn named_kind(name: Seq<char>, value: Seq<char>) -> Option<TokKind> {
    if name == "NAME"@ {
        Some(word_kind(value))
    } else if name == "COMMENT"@ {
        Some(TokKind::COMMENT)
    } else if name == "ENCODING"@ {
        Some(TokKind::ENCODING)
    } else if name == "NL"@ {
        Some(TokKind::NL)
    } else if name == "LPAR"@ {
        Some(TokKind::LPAR)
    } else if name == "RPAR"@ {
        Some(TokKind::RPAR)
    } else if name == "LSQB"@ {
        Some(TokKind::LSQB)
    } else if name == "RSQB"@ {
        Some(TokKind::RSQB)
    } else if name == "COLON"@ {
        Some(TokKind::COLON)
    } else if name == "COMMA"@ {
        Some(TokKind::COMMA)
    } else if name == "SEMI"@ {
        Some(TokKind::SEMI)
    } else if name == "PLUS"@ {
        Some(TokKind::PLUS)
    } else if name == "MINUS"@ {
        Some(TokKind::MINUS)
    } else if name == "STAR"@ {
        Some(TokKind::STAR)
    } else if name == "SLASH"@ {
        Some(TokKind::SLASH)
    } else if name == "VBAR"@ {
        Some(TokKind::VBAR)
    } else if name == "AMPER"@ {
        Some(TokKind::AMPER)
    } else if name == "LESS"@ {
        Some(TokKind::LESS)
    } else if name == "GREATER"@ {
        Some(TokKind::GREATER)
    } else if name == "EQUAL"@ {
        Some(TokKind::EQUAL)
    } else if name == "DOT"@ {
        Some(TokKind::DOT)
    } else if name == "PERCENT"@ {
        Some(TokKind::PERCENT)
    } else if name == "LBRACE"@ {
        Some(TokKind::LBRACE)
    } else if name == "RBRACE"@ {
        Some(TokKind::RBRACE)
    } else if name == "EQEQUAL"@ {
        Some(TokKind::EQEQUAL)
    } else if name == "NOTEQUAL"@ {
        Some(TokKind::NOTEQUAL)
    } else if name == "LESSEQUAL"@ {
        Some(TokKind::LESSEQUAL)
    } else if name == "GREATEREQUAL"@ {
        Some(TokKind::GREATEREQUAL)
    } else if name == "TILDE"@ {
        Some(TokKind::TILDE)
    } else if name == "CIRCUMFLEX"@ {
        Some(TokKind::CIRCUMFLEX)
    } else if name == "LEFTSHIFT"@ {
        Some(TokKind::LEFTSHIFT)
    } else if name == "RIGHTSHIFT"@ {
        Some(TokKind::RIGHTSHIFT)
    } else if name == "DOUBLESTAR"@ {
        Some(TokKind::DOUBLESTAR)
    } else if name == "PLUSEQUAL"@ {
        Some(TokKind::PLUSEQUAL)
    } else if name == "MINEQUAL"@ {
        Some(TokKind::MINEQUAL)
    } else if name == "STAREQUAL"@ {
        Some(TokKind::STAREQUAL)
    } else if name == "SLASHEQUAL"@ {
        Some(TokKind::SLASHEQUAL)
    } else if name == "PERCENTEQUAL"@ {
        Some(TokKind::PERCENTEQUAL)
    } else if name == "AMPEREQUAL"@ {
        Some(TokKind::AMPEREQUAL)
    } else if name == "VBAREQUAL"@ {
        Some(TokKind::VBAREQUAL)
    } else if name == "CIRCUMFLEXEQUAL"@ {
        Some(TokKind::CIRCUMFLEXEQUAL)
    } else if name == "LEFTSHIFTEQUAL"@ {
        Some(TokKind::LEFTSHIFTEQUAL)
    } else if name == "RIGHTSHIFTEQUAL"@ {
        Some(TokKind::RIGHTSHIFTEQUAL)
    } else if name == "DOUBLESTAREQUAL"@ {
        Some(TokKind::DOUBLESTAREQUAL)
    } else if name == "DOUBLESLASH"@ {
        Some(TokKind::DOUBLESLASH)
    } else if name == "DOUBLESLASHEQUAL"@ {
        Some(TokKind::DOUBLESLASHEQUAL)
    } else if name == "AT"@ {
        Some(TokKind::AT)
    } else if name == "ATEQUAL"@ {
        Some(TokKind::ATEQUAL)
    } else if name == "ENDMARKER"@ {
        Some(TokKind::ENDMARKER)
    } else if name == "NUMBER"@ {
        Some(TokKind::NUMBER)
    } else if name == "STRING"@ {
        Some(TokKind::STRING)
    } else if name == "NEWLINE"@ {
        Some(TokKind::NEWLINE)
    } else if name == "INDENT"@ {
        Some(TokKind::INDENT)
    } else if name == "DEDENT"@ {
        Some(TokKind::DEDENT)
    } else if name == "RARROW"@ {
        Some(TokKind::RARROW)
    } else if name == "ELLIPSIS"@ {
        Some(TokKind::ELLIPSIS)
    } else if name == "OP"@ {
        Some(TokKind::OP)
    } else if name == "AWAIT"@ {
        Some(TokKind::AWAIT)
    } else if name == "ASYNC"@ {
        Some(TokKind::ASYNC)
    } else if name == "ERRORTOKEN"@ {
        Some(TokKind::ERRORTOKEN)
    } else if name == "RIGHTSHIFTEQUAL'>>='"@ {
        Some(TokKind::RIGHTSHIFTEQUAL)
    } else if name == "DOUBLESLASHEQUAL'//='"@ {
        Some(TokKind::DOUBLESLASHEQUAL)
    } else {
        None
    }
}

fn kind_of_word(word: &str) -> (k: TokKind)
    ensures
        k == word_kind(word@),
{
    if text_is(word, "def") {
        TokKind::NAMEdef
    } else if text_is(word, "break") {
        TokKind::NAMEbreak
    } else if text_is(word, "continue") {
        TokKind::NAMEcontinue
    } else if text_is(word, "global") {
        TokKind::NAMEglobal
    } else if text_is(word, "nonlocal") {
        TokKind::NAMEnonlocal
    } else if text_is(word, "while") {
        TokKind::NAMEwhile
    } else if text_is(word, "if") {
        TokKind::NAMEif
    } else if text_is(word, "return") {
        TokKind::NAMEreturn
    } else if text_is(word, "elif") {
        TokKind::NAMEelif
    } else if text_is(word, "else") {
        TokKind::NAMEelse
    } else if text_is(word, "or") {
        TokKind::NAMEor
    } else if text_is(word, "not") {
        TokKind::NAMEnot
    } else if text_is(word, "pass") {
        TokKind::NAMEpass
    } else if text_is(word, "and") {
        TokKind::NAMEand
    } else if text_is(word, "in") {
        TokKind::NAMEin
    } else if text_is(word, "is") {
        TokKind::NAMEis
    } else if text_is(word, "None") {
        TokKind::NAMENone
    } else if text_is(word, "True") {
        TokKind::NAMETrue
    } else if text_is(word, "False") {
        TokKind::NAMEFalse
    } else {
        TokKind::NAME
    }
}

fn kind_named(name: &str, value: &str) -> (r: Option<TokKind>)
    ensures
        r == named_kind(name@, value@),
{
    if text_is(name, "NAME") {
        Some(kind_of_word(value))
    } else if text_is(name, "COMMENT") {
        Some(TokKind::COMMENT)
    } else if text_is(name, "ENCODING") {
        Some(TokKind::ENCODING)
    } else if text_is(name, "NL") {
        Some(TokKind::NL)
    } else if text_is(name, "LPAR") {
        Some(TokKind::LPAR)
    } else if text_is(name, "RPAR") {
        Some(TokKind::RPAR)
    } else if text_is(name, "LSQB") {
        Some(TokKind::LSQB)
    } else if text_is(name, "RSQB") {
        Some(TokKind::RSQB)
    } else if text_is(name, "COLON") {
        Some(TokKind::COLON)
    } else if text_is(name, "COMMA") {
        Some(TokKind::COMMA)
    } else if text_is(name, "SEMI") {
        Some(TokKind::SEMI)
    } else if text_is(name, "PLUS") {
        Some(TokKind::PLUS)
    } else if text_is(name, "MINUS") {
        Some(TokKind::MINUS)
    } else if text_is(name, "STAR") {
        Some(TokKind::STAR)
    } else if text_is(name, "SLASH") {
        Some(TokKind::SLASH)
    } else if text_is(name, "VBAR") {
        Some(TokKind::VBAR)
    } else if text_is(name, "AMPER") {
        Some(TokKind::AMPER)
    } else if text_is(name, "LESS") {
        Some(TokKind::LESS)
    } else if text_is(name, "GREATER") {
        Some(TokKind::GREATER)
    } else if text_is(name, "EQUAL") {
        Some(TokKind::EQUAL)
    } else if text_is(name, "DOT") {
        Some(TokKind::DOT)
    } else if text_is(name, "PERCENT") {
        Some(TokKind::PERCENT)
    } else if text_is(name, "LBRACE") {
        Some(TokKind::LBRACE)
    } else if text_is(name, "RBRACE") {
        Some(TokKind::RBRACE)
    } else if text_is(name, "EQEQUAL") {
        Some(TokKind::EQEQUAL)
    } else if text_is(name, "NOTEQUAL") {
        Some(TokKind::NOTEQUAL)
    } else if text_is(name, "LESSEQUAL") {
        Some(TokKind::LESSEQUAL)
    } else if text_is(name, "GREATEREQUAL") {
        Some(TokKind::GREATEREQUAL)
    } else if text_is(name, "TILDE") {
        Some(TokKind::TILDE)
    } else if text_is(name, "CIRCUMFLEX") {
        Some(TokKind::CIRCUMFLEX)
    } else if text_is(name, "LEFTSHIFT") {
        Some(TokKind::LEFTSHIFT)
    } else if text_is(name, "RIGHTSHIFT") {
        Some(TokKind::RIGHTSHIFT)
    } else if text_is(name, "DOUBLESTAR") {
        Some(TokKind::DOUBLESTAR)
    } else if text_is(name, "PLUSEQUAL") {
        Some(TokKind::PLUSEQUAL)
    } else if text_is(name, "MINEQUAL") {
        Some(TokKind::MINEQUAL)
    } else if text_is(name, "STAREQUAL") {
        Some(TokKind::STAREQUAL)
    } else if text_is(name, "SLASHEQUAL") {
        Some(TokKind::SLASHEQUAL)
    } else if text_is(name, "PERCENTEQUAL") {
        Some(TokKind::PERCENTEQUAL)
    } else if text_is(name, "AMPEREQUAL") {
        Some(TokKind::AMPEREQUAL)
    } else if text_is(name, "VBAREQUAL") {
        Some(TokKind::VBAREQUAL)
    } else if text_is(name, "CIRCUMFLEXEQUAL") {
        Some(TokKind::CIRCUMFLEXEQUAL)
    } else if text_is(name, "LEFTSHIFTEQUAL") {
        Some(TokKind::LEFTSHIFTEQUAL)
    } else if text_is(name, "RIGHTSHIFTEQUAL") {
        Some(TokKind::RIGHTSHIFTEQUAL)
    } else if text_is(name, "DOUBLESTAREQUAL") {
        Some(TokKind::DOUBLESTAREQUAL)
    } else if text_is(name, "DOUBLESLASH") {
        Some(TokKind::DOUBLESLASH)
    } else if text_is(name, "DOUBLESLASHEQUAL") {
        Some(TokKind::DOUBLESLASHEQUAL)
    } else if text_is(name, "AT") {
        Some(TokKind::AT)
    } else if text_is(name, "ATEQUAL") {
        Some(TokKind::ATEQUAL)
    } else if text_is(name, "ENDMARKER") {
        Some(TokKind::ENDMARKER)
    } else if text_is(name, "NUMBER") {
        Some(TokKind::NUMBER)
    } else if text_is(name, "STRING") {
        Some(TokKind::STRING)
    } else if text_is(name, "NEWLINE") {
        Some(TokKind::NEWLINE)
    } else if text_is(name, "INDENT") {
        Some(TokKind::INDENT)
    } else if text_is(name, "DEDENT") {
        Some(TokKind::DEDENT)
    } else if text_is(name, "RARROW") {
        Some(TokKind::RARROW)
    } else if text_is(name, "ELLIPSIS") {
        Some(TokKind::ELLIPSIS)
    } else if text_is(name, "OP") {
        Some(TokKind::OP)
    } else if text_is(name, "AWAIT") {
        Some(TokKind::AWAIT)
    } else if text_is(name, "ASYNC") {
        Some(TokKind::ASYNC)
    } else if text_is(name, "ERRORTOKEN") {
        Some(TokKind::ERRORTOKEN)
    } else if text_is(name, "RIGHTSHIFTEQUAL'>>='") {
        Some(TokKind::RIGHTSHIFTEQUAL)
    } else if text_is(name, "DOUBLESLASHEQUAL'//='") {
        Some(TokKind::DOUBLESLASHEQUAL)
    } else {
        None
    }
}

/// The value of a digit in a base up to 16.
pub open spec fn digit_in(c: char, base: nat) -> Option<nat> {
    let v: int = if '0' <= c <= '9' {
        c as int - '0' as int
    } else if 'a' <= c <= 'f' {
        c as int - 'a' as int + 10
    } else if 'A' <= c <= 'F' {
        c as int - 'A' as int + 10
    } else {
        16
    };
    if v < base {
        Some(v as nat)
    } else {
        None
    }
}

/// The number that the first `n` characters spell in a base, where they
/// are digits of the base and the number stays below 2^32.
pub open spec fn spelled(s: Seq<char>, n: int, base: nat) -> Option<nat>
    decreases n,
{
    if n <= 0 || n > s.len() {
        None
    } else {
        match digit_in(s[n - 1], base) {
            None => None,
            Some(d) => if n == 1 {
                Some(d)
            } else {
                match spelled(s, n - 1, base) {
                    None => None,
                    Some(m) => if m * base + d > 0xffff_ffff {
                        None
                    } else {
                        Some(m * base + d)
                    },
                }
            },
        }
    }
}

/// The value of a number of the source: decimal, or hexadecimal behind
/// `0x`.
pub open spec fn number_value(value: Seq<char>) -> Option<nat> {
    match spelled(value, value.len() as int, 10) {
        Some(v) => Some(v),
        None => if value.len() >= 3 && value[0] == '0' && value[1] == 'x' {
            spelled(value.skip(2), value.len() - 2, 16)
        } else {
            None
        },
    }
}

/// The text with each backslash that is followed by `second` replaced,
/// together with it, by `by`, from `from` on and from left to right.
pub open spec fn replace_escape(s: Seq<char>, from: int, second: char, by: char) -> Seq<char>
    decreases s.len() - from,
{
    if from < 0 || from >= s.len() {
        Seq::empty()
    } else if s[from] == '\\' && from + 1 < s.len() && s[from + 1] == second {
        seq![by] + replace_escape(s, from + 2, second, by)
    } else {
        seq![s[from]] + replace_escape(s, from + 1, second, by)
    }
}

/// The text with its escapes for a line feed, a tabulator and the two
/// quotes resolved, in this order.
pub open spec fn unescaped(v: Seq<char>) -> Seq<char> {
    replace_escape(
        replace_escape(replace_escape(replace_escape(v, 0, 'n', '\n'), 0, 't', '\t'), 0, '\'', '\''),
        0,
        '"',
        '"',
    )
}

/// A string without the quotes around it, where it begins and ends with
/// the same quote.
pub open spec fn unquoted(value: Seq<char>) -> Seq<char> {
    if value.len() >= 2 && ((value[0] == '"' && value.last() == '"') || (value[0] == '\'' && value.last()
        == '\'')) {
        value.subrange(1, value.len() - 1)
    } else {
        value
    }
}

/// The token for the name of a kind, a location and a text: a number has
/// its value, a string its contents.
pub open spec fn token_for(name: Seq<char>, location: Seq<char>, value: Seq<char>) -> Result<
    TokView,
    CompileError,
> {
    match named_kind(name, value) {
        None => Err(CompileError::UnknownToken),
        Some(kind) => if kind == TokKind::NUMBER {
            match number_value(value) {
                Some(n) => Ok(TokView { kind, location, value: Seq::empty(), number: n as u32 }),
                None => Err(CompileError::BadNumber),
            }
        } else {
            Ok(
                TokView {
                    kind,
                    location,
                    value: if kind == TokKind::STRING {
                        unescaped(unquoted(value))
                    } else if kind == TokKind::RIGHTSHIFTEQUAL {
                        ">>="@
                    } else if kind == TokKind::DOUBLESLASHEQUAL {
                        "//="@
                    } else {
                        value
                    },
                    number: 0,
                },
            )
        },
    }
}

fn digit_value_in(c: char, base: u32) -> (r: Option<u32>)
    requires
        base <= 16,
    ensures
        match r {
            Some(d) => digit_in(c, base as nat) == Some(d as nat) && d < base,
            None => digit_in(c, base as nat) is None,
        },
{
    let v: u32 = if '0' <= c && c <= '9' {
        c as u32 - '0' as u32
    } else if 'a' <= c && c <= 'f' {
        c as u32 - 'a' as u32 + 10
    } else if 'A' <= c && c <= 'F' {
        c as u32 - 'A' as u32 + 10
    } else {
        16
    };
    if v < base {
        Some(v)
    } else {
        None
    }
}

fn spell(s: &[char], base: u32) -> (r: Option<u32>)
    requires
        base == 10 || base == 16,
    ensures
        match r {
            Some(n) => spelled(s@, s@.len() as int, base as nat) == Some(n as nat),
            None => spelled(s@, s@.len() as int, base as nat) is None,
        },
{
    if s.len() == 0 {
        return None;
    }
    let mut n: u32 = 0;
    let mut i: usize = 0;
    while i < s.len()
        invariant
            i <= s.len(),
            base == 10 || base == 16,
            i > 0 ==> spelled(s@, i as int, base as nat) == Some(n as nat),
        decreases s.len() - i,
    {
        match digit_value_in(s[i], base) {
            None => {
                proof {
                    assert(spelled(s@, i + 1, base as nat) is None);
                    lemma_spelled_fails(s@, i + 1, s@.len() as int, base as nat);
                }
                return None;
            },
            Some(d) => {
                if i == 0 {
                    n = d;
                } else if n > (0xffff_ffff - d) / base {
                    proof {
                        assert(n * base + d > 0xffff_ffff) by (nonlinear_arith)
                            requires
                                n > (0xffff_ffff - d) / (base as int),
                                base == 10 || base == 16,
                                d < base,
                        ;
                        assert(spelled(s@, i + 1, base as nat) is None);
                        lemma_spelled_fails(s@, i + 1, s@.len() as int, base as nat);
                    }
                    return None;
                } else {
                    assert(n * base + d <= 0xffff_ffff) by (nonlinear_arith)
                        requires
                            n <= (0xffff_ffff - d) / (base as int),
                            base == 10 || base == 16,
                            d < base,
                    ;
                    n = n * base + d;
                }
            },
        }
        i += 1;
    }
    Some(n)
}

proof fn lemma_spelled_fails(s: Seq<char>, k: int, n: int, base: nat)
    requires
        1 <= k <= n <= s.len(),
        spelled(s, k, base) is None,
    ensures
        spelled(s, n, base) is None,
    decreases n - k,
{
    if k < n {
        lemma_spelled_fails(s, k, n - 1, base);
    }
}

fn replace_one(s: &Vec<char>, second: char, by: char) -> (r: Vec<char>)
    ensures
        r@ == replace_escape(s@, 0, second, by),
{
    let mut out: Vec<char> = Vec::new();
    let mut i: usize = 0;
    while i < s.len()
        invariant
            i <= s.len(),
            out@ + replace_escape(s@, i as int, second, by) == replace_escape(s@, 0, second, by),
        decreases s.len() - i,
    {
        let ghost before = out@;
        if s[i] == '\\' && i + 1 < s.len() && s[i + 1] == second {
            out.push(by);
            assert(out@ + replace_escape(s@, i + 2, second, by) =~= before + replace_escape(
                s@,
                i as int,
                second,
                by,
            ));
            i += 2;
        } else {
            out.push(s[i]);
            assert(out@ + replace_escape(s@, i + 1, second, by) =~= before + replace_escape(
                s@,
                i as int,
                second,
                by,
            ));
            i += 1;
        }
    }
    assert(out@ + replace_escape(s@, s@.len() as int, second, by) =~= out@);
    out
}

/// Resolves the escapes for a line feed, a tabulator and the two quotes.
pub fn unescape(v: &str) -> (s: String)
    ensures
        s@ == unescaped(v@),
{
    let a = replace_one(&chars_of(v), 'n', '\n');
    let b = replace_one(&a, 't', '\t');
    let c = replace_one(&b, '\'', '\'');
    let d = replace_one(&c, '"', '"');
    string_of(d.as_slice())
}

fn number_from(value: &str) -> (r: Option<u32>)
    ensures
        match r {
            Some(n) => number_value(value@) == Some(n as nat),
            None => number_value(value@) is None,
        },
{
    let cs = chars_of(value);
    match spell(cs.as_slice(), 10) {
        Some(n) => Some(n),
        None => {
            if cs.len() >= 3 && cs[0] == '0' && cs[1] == 'x' {
                let digits = vstd::slice::slice_subrange(cs.as_slice(), 2, cs.len());
                assert(digits@ =~= cs@.skip(2));
                spell(digits, 16)
            } else {
                None
            }
        },
    }
}

fn unquote(value: &str) -> (r: String)
    ensures
        r@ == unquoted(value@),
{
    let cs = chars_of(value);
    let n = cs.len();
    if n >= 2 && ((cs[0] == '"' && cs[n - 1] == '"') || (cs[0] == '\'' && cs[n - 1] == '\'')) {
        string_of(vstd::slice::slice_subrange(cs.as_slice(), 1, n - 1))
    } else {
        string_of(cs.as_slice())
    }
}

/// The token for the name of a kind, a location and a text.
pub fn find_token_for_name(name: &str, location: &str, value: &str) -> (r: Result<Tok, CompileError>)
    ensures
        match r {
            Ok(t) => token_for(name@, location@, value@) == Ok::<TokView, CompileError>(t.deep_view()),
            Err(e) => token_for(name@, location@, value@) == Err::<TokView, CompileError>(e),
        },
{
    let kind = match kind_named(name, value) {
        None => {
            return Err(CompileError::UnknownToken);
        },
        Some(k) => k,
    };
    let place = String::from_str(location);
    match kind {
        TokKind::NUMBER => {
            match number_from(value) {
                Some(n) => {
                    let t = Tok::NUMBER { location: place, value: n };
                    assert(t.deep_view().value =~= Seq::<char>::empty());
                    Ok(t)
                },
                None => Err(CompileError::BadNumber),
            }
        },
        TokKind::STRING => {
            let inner = unquote(value);
            Ok(Tok::STRING { location: place, value: unescape(inner.as_str()) })
        },
        TokKind::RIGHTSHIFTEQUAL => Ok(Tok::RIGHTSHIFTEQUAL { location: place, value: String::from_str(">>=") }),
        TokKind::DOUBLESLASHEQUAL => Ok(
            Tok::DOUBLESLASHEQUAL { location: place, value: String::from_str("//=") },
        ),
        _ => Ok(Tok::with_text(kind, place, String::from_str(value))),
    }
}

/// The tokens of a list as values.
pub open spec fn tok_views(v: Seq<Tok>) -> Seq<TokView> {
    Seq::new(v.len(), |i: int| v[i].deep_view())
}

/// Where the splitting of a program into its sections stands.
pub struct Sections {
    /// Whether an editable section is open.
    pub open: bool,
    /// The number of editable sections that were opened.
    pub count: nat,
    pub hcomp: Seq<TokView>,
    pub pcomp: Seq<TokView>,
    /// Whether a marker stood where it may not stand.
    pub misplaced: bool,
}

/// How an editable section begins.
pub open spec fn begin_marker() -> Seq<char> {
    "### BEGIN OF EDITABLE SECTION"@
}

/// How an editable section ends.
pub open spec fn end_marker() -> Seq<char> {
    "### END OF EDITABLE SECTION"@
}

/// The splitting after one more token: a comment that is a marker opens
/// or closes a section, other comments and line breaks within brackets are
/// dropped, and a token inside a section goes to both sections from the
/// first section, to `hcomp` from the second and to `pcomp` from the
/// third.
pub open spec fn sections_step(s: Sections, t: TokView) -> Sections {
    if t.kind == TokKind::COMMENT {
        if starts_with(t.value, begin_marker()) {
            if s.open {
                Sections { misplaced: true, ..s }
            } else {
                Sections { open: true, count: s.count + 1, ..s }
            }
        } else if starts_with(t.value, end_marker()) {
            if s.open {
                Sections { open: false, ..s }
            } else {
                Sections { misplaced: true, ..s }
            }
        } else {
            s
        }
    } else if t.kind == TokKind::NL {
        s
    } else if s.open && s.count == 1 {
        Sections { hcomp: s.hcomp.push(t), pcomp: s.pcomp.push(t), ..s }
    } else if s.open && s.count == 2 {
        Sections { hcomp: s.hcomp.push(t), ..s }
    } else if s.open && s.count == 3 {
        Sections { pcomp: s.pcomp.push(t), ..s }
    } else {
        s
    }
}

/// The splitting after the first `n` tokens.
pub open spec fn sections_upto(tokens: Seq<TokView>, n: int) -> Sections
    decreases n,
{
    if n <= 0 || n > tokens.len() {
        Sections { open: false, count: 0, hcomp: Seq::empty(), pcomp: Seq::empty(), misplaced: false }
    } else {
        sections_step(sections_upto(tokens, n - 1), tokens[n - 1])
    }
}

/// The tokens of the two sections of a program: each begins with the
/// tokens of the first editable section. A program without three editable
/// sections, with a section left open or with a misplaced marker is
/// refused.
pub open spec fn separated(tokens: Seq<TokView>) -> Result<(Seq<TokView>, Seq<TokView>), CompileError> {
    let s = sections_upto(tokens, tokens.len() as int);
    if s.misplaced || s.open || s.count < 3 {
        Err(CompileError::BadSections)
    } else {
        Ok((s.hcomp, s.pcomp))
    }
}

/// Splits the tokens of a program into those of its two sections, without
/// the comments.
pub fn seperate_sections(tokens: Vec<Tok>) -> (r: Result<(Vec<Tok>, Vec<Tok>), CompileError>)
    ensures
        match r {
            Ok((hcomp, pcomp)) => separated(tok_views(tokens@)) == Ok::<(Seq<TokView>, Seq<TokView>), CompileError>(
                (tok_views(hcomp@), tok_views(pcomp@)),
            ),
            Err(e) => separated(tok_views(tokens@)) == Err::<(Seq<TokView>, Seq<TokView>), CompileError>(e),
        },
{
    let ghost all = tok_views(tokens@);
    let mut hcomp: Vec<Tok> = Vec::new();
    let mut pcomp: Vec<Tok> = Vec::new();
    let mut open = false;
    let mut count: usize = 0;
    let mut misplaced = false;
    let mut i: usize = 0;
    assert(tok_views(hcomp@) =~= Seq::<TokView>::empty());
    assert(tok_views(pcomp@) =~= Seq::<TokView>::empty());
    while i < tokens.len()
        invariant
            i <= tokens.len(),
            count <= i,
            all == tok_views(tokens@),
            sections_upto(all, i as int) == (Sections {
                open,
                count: count as nat,
                hcomp: tok_views(hcomp@),
                pcomp: tok_views(pcomp@),
                misplaced,
            }),
        decreases tokens.len() - i,
    {
        let t = &tokens[i];
        assert(all[i as int] == t.deep_view());
        let ghost h0 = tok_views(hcomp@);
        let ghost p0 = tok_views(pcomp@);
        match t {
            Tok::COMMENT { location, value } => {
                if text_starts_with(value.as_str(), "### BEGIN OF EDITABLE SECTION") {
                    if open {
                        misplaced = true;
                    } else {
                        open = true;
                        count += 1;
                    }
                } else if text_starts_with(value.as_str(), "### END OF EDITABLE SECTION") {
                    if open {
                        open = false;
                    } else {
                        misplaced = true;
                    }
                }
            },
            Tok::NL { .. } => {},
            _ => {
                if open && count == 1 {
                    hcomp.push(t.clone());
                    pcomp.push(t.clone());
                    assert(tok_views(hcomp@) =~= h0.push(t.deep_view()));
                    assert(tok_views(pcomp@) =~= p0.push(t.deep_view()));
                } else if open && count == 2 {
                    hcomp.push(t.clone());
                    assert(tok_views(hcomp@) =~= h0.push(t.deep_view()));
                } else if open && count == 3 {
                    pcomp.push(t.clone());
                    assert(tok_views(pcomp@) =~= p0.push(t.deep_view()));
                }
            },
        }
        i += 1;
    }
    if misplaced || open || count < 3 {
        Err(CompileError::BadSections)
    } else {
        Ok((hcomp, pcomp))
    }
}

} // verus!
