//! Tokens as the parser reads them.

use vstd::prelude::*;
use crate::error::SourcePosition;
use crate::text::push_char;

verus! {

/// The kind of a token, with the text or value it carries.
///
/// A number literal carries the IEEE-754 bit pattern of its `f64` value.
#[derive(Debug)]
pub enum TokenType {
    Alias,
    Ampersand,
    AmpersandAmpersand,
    And,
    Arrow,
    As,
    Bang,
    BangEqual,
    BigNumType,
    BoolType,
    Break,
    Caret,
    Catch,
    Colon,
    Comma,
    Configure,
    Continue,
    DataType,
    Dot,
    DotBangEqual,
    DotCaret,
    DotDotDot,
    DotDoubleStar,
    DotEqualEqual,
    DotGreater,
    DotGreaterEqual,
    DotLess,
    DotLessEqual,
    DotMinus,
    DotPercent,
    DotPlus,
    DotSlash,
    DotSlashSlash,
    DotStar,
    DoubleStar,
    Else,
    Eof,
    Equal,
    EqualEqual,
    False,
    Finally,
    For,
    From,
    Func,
    GraphType,
    Greater,
    GreaterEqual,
    Identifier(String),
    If,
    Import,
    In,
    LeftBrace,
    LeftBracket,
    LeftParen,
    LeftShift,
    Less,
    LessEqual,
    ListType,
    Load,
    MapType,
    Match,
    Minus,
    Module,
    Newline,
    NoneKw,
    Not,
    NumType,
    Number(u64),
    Or,
    Percent,
    Pipe,
    PipePipe,
    Plus,
    Precision,
    Priv,
    Raise,
    RegexMatch,
    RegexNoMatch,
    Return,
    RightBrace,
    RightBracket,
    RightParen,
    RightShift,
    Rule,
    Semicolon,
    SetKw,
    Slash,
    SlashSlash,
    Star,
    Static,
    String(String),
    StringType,
    Super,
    Symbol(String),
    Then,
    Tilde,
    TreeType,
    True,
    Try,
    Unless,
    When,
    While,
}

/// The variant of a token type, as a number (payloads ignored).
pub open spec fn kind(t: TokenType) -> u8 {
    match t {
        TokenType::Alias => 0u8,
        TokenType::Ampersand => 1u8,
        TokenType::AmpersandAmpersand => 2u8,
        TokenType::And => 3u8,
        TokenType::Arrow => 4u8,
        TokenType::As => 5u8,
        TokenType::Bang => 6u8,
        TokenType::BangEqual => 7u8,
        TokenType::BigNumType => 8u8,
        TokenType::BoolType => 9u8,
        TokenType::Break => 10u8,
        TokenType::Caret => 11u8,
        TokenType::Catch => 12u8,
        TokenType::Colon => 13u8,
        TokenType::Comma => 14u8,
        TokenType::Configure => 15u8,
        TokenType::Continue => 16u8,
        TokenType::DataType => 17u8,
        TokenType::Dot => 18u8,
        TokenType::DotBangEqual => 19u8,
        TokenType::DotCaret => 20u8,
        TokenType::DotDotDot => 21u8,
        TokenType::DotDoubleStar => 22u8,
        TokenType::DotEqualEqual => 23u8,
        TokenType::DotGreater => 24u8,
        TokenType::DotGreaterEqual => 25u8,
        TokenType::DotLess => 26u8,
        TokenType::DotLessEqual => 27u8,
        TokenType::DotMinus => 28u8,
        TokenType::DotPercent => 29u8,
        TokenType::DotPlus => 30u8,
        TokenType::DotSlash => 31u8,
        TokenType::DotSlashSlash => 32u8,
        TokenType::DotStar => 33u8,
        TokenType::DoubleStar => 34u8,
        TokenType::Else => 35u8,
        TokenType::Eof => 36u8,
        TokenType::Equal => 37u8,
        TokenType::EqualEqual => 38u8,
        TokenType::False => 39u8,
        TokenType::Finally => 40u8,
        TokenType::For => 41u8,
        TokenType::From => 42u8,
        TokenType::Func => 43u8,
        TokenType::GraphType => 44u8,
        TokenType::Greater => 45u8,
        TokenType::GreaterEqual => 46u8,
        TokenType::Identifier(_) => 47u8,
        TokenType::If => 48u8,
        TokenType::Import => 49u8,
        TokenType::In => 50u8,
        TokenType::LeftBrace => 51u8,
        TokenType::LeftBracket => 52u8,
        TokenType::LeftParen => 53u8,
        TokenType::LeftShift => 54u8,
        TokenType::Less => 55u8,
        TokenType::LessEqual => 56u8,
        TokenType::ListType => 57u8,
        TokenType::Load => 58u8,
        TokenType::MapType => 59u8,
        TokenType::Match => 60u8,
        TokenType::Minus => 61u8,
        TokenType::Module => 62u8,
        TokenType::Newline => 63u8,
        TokenType::NoneKw => 64u8,
        TokenType::Not => 65u8,
        TokenType::NumType => 66u8,
        TokenType::Number(_) => 67u8,
        TokenType::Or => 68u8,
        TokenType::Percent => 69u8,
        TokenType::Pipe => 70u8,
        TokenType::PipePipe => 71u8,
        TokenType::Plus => 72u8,
        TokenType::Precision => 73u8,
        TokenType::Priv => 74u8,
        TokenType::Raise => 75u8,
        TokenType::RegexMatch => 76u8,
        TokenType::RegexNoMatch => 77u8,
        TokenType::Return => 78u8,
        TokenType::RightBrace => 79u8,
        TokenType::RightBracket => 80u8,
        TokenType::RightParen => 81u8,
        TokenType::RightShift => 82u8,
        TokenType::Rule => 83u8,
        TokenType::Semicolon => 84u8,
        TokenType::SetKw => 85u8,
        TokenType::Slash => 86u8,
        TokenType::SlashSlash => 87u8,
        TokenType::Star => 88u8,
        TokenType::Static => 89u8,
        TokenType::String(_) => 90u8,
        TokenType::StringType => 91u8,
        TokenType::Super => 92u8,
        TokenType::Symbol(_) => 93u8,
        TokenType::Then => 94u8,
        TokenType::Tilde => 95u8,
        TokenType::TreeType => 96u8,
        TokenType::True => 97u8,
        TokenType::Try => 98u8,
        TokenType::Unless => 99u8,
        TokenType::When => 100u8,
        TokenType::While => 101u8,
    }
}

impl TokenType {
    /// The variant of this token type, as a number (payloads ignored).
    pub fn kind(&self) -> (r: u8)
        ensures
            r == kind(*self),
    {
        match self {
            TokenType::Alias => 0u8,
            TokenType::Ampersand => 1u8,
            TokenType::AmpersandAmpersand => 2u8,
            TokenType::And => 3u8,
            TokenType::Arrow => 4u8,
            TokenType::As => 5u8,
            TokenType::Bang => 6u8,
            TokenType::BangEqual => 7u8,
            TokenType::BigNumType => 8u8,
            TokenType::BoolType => 9u8,
            TokenType::Break => 10u8,
            TokenType::Caret => 11u8,
            TokenType::Catch => 12u8,
            TokenType::Colon => 13u8,
            TokenType::Comma => 14u8,
            TokenType::Configure => 15u8,
            TokenType::Continue => 16u8,
            TokenType::DataType => 17u8,
            TokenType::Dot => 18u8,
            TokenType::DotBangEqual => 19u8,
            TokenType::DotCaret => 20u8,
            TokenType::DotDotDot => 21u8,
            TokenType::DotDoubleStar => 22u8,
            TokenType::DotEqualEqual => 23u8,
            TokenType::DotGreater => 24u8,
            TokenType::DotGreaterEqual => 25u8,
            TokenType::DotLess => 26u8,
            TokenType::DotLessEqual => 27u8,
            TokenType::DotMinus => 28u8,
            TokenType::DotPercent => 29u8,
            TokenType::DotPlus => 30u8,
            TokenType::DotSlash => 31u8,
            TokenType::DotSlashSlash => 32u8,
            TokenType::DotStar => 33u8,
            TokenType::DoubleStar => 34u8,
            TokenType::Else => 35u8,
            TokenType::Eof => 36u8,
            TokenType::Equal => 37u8,
            TokenType::EqualEqual => 38u8,
            TokenType::False => 39u8,
            TokenType::Finally => 40u8,
            TokenType::For => 41u8,
            TokenType::From => 42u8,
            TokenType::Func => 43u8,
            TokenType::GraphType => 44u8,
            TokenType::Greater => 45u8,
            TokenType::GreaterEqual => 46u8,
            TokenType::Identifier(_) => 47u8,
            TokenType::If => 48u8,
            TokenType::Import => 49u8,
            TokenType::In => 50u8,
            TokenType::LeftBrace => 51u8,
            TokenType::LeftBracket => 52u8,
            TokenType::LeftParen => 53u8,
            TokenType::LeftShift => 54u8,
            TokenType::Less => 55u8,
            TokenType::LessEqual => 56u8,
            TokenType::ListType => 57u8,
            TokenType::Load => 58u8,
            TokenType::MapType => 59u8,
            TokenType::Match => 60u8,
            TokenType::Minus => 61u8,
            TokenType::Module => 62u8,
            TokenType::Newline => 63u8,
            TokenType::NoneKw => 64u8,
            TokenType::Not => 65u8,
            TokenType::NumType => 66u8,
            TokenType::Number(_) => 67u8,
            TokenType::Or => 68u8,
            TokenType::Percent => 69u8,
            TokenType::Pipe => 70u8,
            TokenType::PipePipe => 71u8,
            TokenType::Plus => 72u8,
            TokenType::Precision => 73u8,
            TokenType::Priv => 74u8,
            TokenType::Raise => 75u8,
            TokenType::RegexMatch => 76u8,
            TokenType::RegexNoMatch => 77u8,
            TokenType::Return => 78u8,
            TokenType::RightBrace => 79u8,
            TokenType::RightBracket => 80u8,
            TokenType::RightParen => 81u8,
            TokenType::RightShift => 82u8,
            TokenType::Rule => 83u8,
            TokenType::Semicolon => 84u8,
            TokenType::SetKw => 85u8,
            TokenType::Slash => 86u8,
            TokenType::SlashSlash => 87u8,
            TokenType::Star => 88u8,
            TokenType::Static => 89u8,
            TokenType::String(_) => 90u8,
            TokenType::StringType => 91u8,
            TokenType::Super => 92u8,
            TokenType::Symbol(_) => 93u8,
            TokenType::Then => 94u8,
            TokenType::Tilde => 95u8,
            TokenType::TreeType => 96u8,
            TokenType::True => 97u8,
            TokenType::Try => 98u8,
            TokenType::Unless => 99u8,
            TokenType::When => 100u8,
            TokenType::While => 101u8,
        }
    }
}

/// A token with its source text and position.
#[derive(Debug)]
pub struct Token {
    pub token_type: TokenType,
    pub lexeme: String,
    pub line: usize,
    pub column: usize,
}

impl Token {
    pub fn new(token_type: TokenType, lexeme: String, line: usize, column: usize) -> (t: Self)
        ensures
            t.token_type == token_type,
            t.lexeme == lexeme,
            t.line == line,
            t.column == column,
    {
        Token { token_type, lexeme, line, column }
    }

    /// Where this token starts.
    pub fn position(&self) -> (p: SourcePosition)
        ensures
            p == (SourcePosition { line: self.line, column: self.column }),
    {
        SourcePosition { line: self.line, column: self.column }
    }
}

/// A character as it appears inside a quoted `Debug` string: `"` and `\\`
/// behind a backslash, and line feed, carriage return and tab as `\\n`,
/// `\\r` and `\\t`; any other character as itself.
pub open spec fn debug_escaped_char(c: char) -> Seq<char> {
    if c == '"' {
        seq!['\\', '"']
    } else if c == '\\' {
        seq!['\\', '\\']
    } else if c == '\n' {
        seq!['\\', 'n']
    } else if c == '\r' {
        seq!['\\', 'r']
    } else if c == '\t' {
        seq!['\\', 't']
    } else {
        seq![c]
    }
}

/// A text with each character escaped as `debug_escaped_char` says.
pub open spec fn debug_escaped(s: Seq<char>) -> Seq<char>
    decreases s.len(),
{
    if s.len() == 0 {
        Seq::empty()
    } else {
        debug_escaped(s.drop_last()) + debug_escaped_char(s.last())
    }
}

/// How a token type is named in error messages: the variant's name, and for
/// a name, string or symbol the text in double quotes after it, as in
/// `Identifier("x")`.  A number token is named `Number` alone.
pub open spec fn token_description(t: TokenType) -> Seq<char> {
    match t {
        TokenType::Alias => "Alias"@,
        TokenType::Ampersand => "Ampersand"@,
        TokenType::AmpersandAmpersand => "AmpersandAmpersand"@,
        TokenType::And => "And"@,
        TokenType::Arrow => "Arrow"@,
        TokenType::As => "As"@,
        TokenType::Bang => "Bang"@,
        TokenType::BangEqual => "BangEqual"@,
        TokenType::BigNumType => "BigNumType"@,
        TokenType::BoolType => "BoolType"@,
        TokenType::Break => "Break"@,
        TokenType::Caret => "Caret"@,
        TokenType::Catch => "Catch"@,
        TokenType::Colon => "Colon"@,
        TokenType::Comma => "Comma"@,
        TokenType::Configure => "Configure"@,
        TokenType::Continue => "Continue"@,
        TokenType::DataType => "DataType"@,
        TokenType::Dot => "Dot"@,
        TokenType::DotBangEqual => "DotBangEqual"@,
        TokenType::DotCaret => "DotCaret"@,
        TokenType::DotDotDot => "DotDotDot"@,
        TokenType::DotDoubleStar => "DotDoubleStar"@,
        TokenType::DotEqualEqual => "DotEqualEqual"@,
        TokenType::DotGreater => "DotGreater"@,
        TokenType::DotGreaterEqual => "DotGreaterEqual"@,
        TokenType::DotLess => "DotLess"@,
        TokenType::DotLessEqual => "DotLessEqual"@,
        TokenType::DotMinus => "DotMinus"@,
        TokenType::DotPercent => "DotPercent"@,
        TokenType::DotPlus => "DotPlus"@,
        TokenType::DotSlash => "DotSlash"@,
        TokenType::DotSlashSlash => "DotSlashSlash"@,
        TokenType::DotStar => "DotStar"@,
        TokenType::DoubleStar => "DoubleStar"@,
        TokenType::Else => "Else"@,
        TokenType::Eof => "Eof"@,
        TokenType::Equal => "Equal"@,
        TokenType::EqualEqual => "EqualEqual"@,
        TokenType::False => "False"@,
        TokenType::Finally => "Finally"@,
        TokenType::For => "For"@,
        TokenType::From => "From"@,
        TokenType::Func => "Func"@,
        TokenType::GraphType => "GraphType"@,
        TokenType::Greater => "Greater"@,
        TokenType::GreaterEqual => "GreaterEqual"@,
        TokenType::Identifier(text) => "Identifier(\""@ + debug_escaped(text@) + "\")"@,
        TokenType::If => "If"@,
        TokenType::Import => "Import"@,
        TokenType::In => "In"@,
        TokenType::LeftBrace => "LeftBrace"@,
        TokenType::LeftBracket => "LeftBracket"@,
        TokenType::LeftParen => "LeftParen"@,
        TokenType::LeftShift => "LeftShift"@,
        TokenType::Less => "Less"@,
        TokenType::LessEqual => "LessEqual"@,
        TokenType::ListType => "ListType"@,
        TokenType::Load => "Load"@,
        TokenType::MapType => "MapType"@,
        TokenType::Match => "Match"@,
        TokenType::Minus => "Minus"@,
        TokenType::Module => "Module"@,
        TokenType::Newline => "Newline"@,
        TokenType::NoneKw => "NoneKw"@,
        TokenType::Not => "Not"@,
        TokenType::NumType => "NumType"@,
        TokenType::Number(_) => "Number"@,
        TokenType::Or => "Or"@,
        TokenType::Percent => "Percent"@,
        TokenType::Pipe => "Pipe"@,
        TokenType::PipePipe => "PipePipe"@,
        TokenType::Plus => "Plus"@,
        TokenType::Precision => "Precision"@,
        TokenType::Priv => "Priv"@,
        TokenType::Raise => "Raise"@,
        TokenType::RegexMatch => "RegexMatch"@,
        TokenType::RegexNoMatch => "RegexNoMatch"@,
        TokenType::Return => "Return"@,
        TokenType::RightBrace => "RightBrace"@,
        TokenType::RightBracket => "RightBracket"@,
        TokenType::RightParen => "RightParen"@,
        TokenType::RightShift => "RightShift"@,
        TokenType::Rule => "Rule"@,
        TokenType::Semicolon => "Semicolon"@,
        TokenType::SetKw => "SetKw"@,
        TokenType::Slash => "Slash"@,
        TokenType::SlashSlash => "SlashSlash"@,
        TokenType::Star => "Star"@,
        TokenType::Static => "Static"@,
        TokenType::String(text) => "String(\""@ + debug_escaped(text@) + "\")"@,
        TokenType::StringType => "StringType"@,
        TokenType::Super => "Super"@,
        TokenType::Symbol(text) => "Symbol(\""@ + debug_escaped(text@) + "\")"@,
        TokenType::Then => "Then"@,
        TokenType::Tilde => "Tilde"@,
        TokenType::TreeType => "TreeType"@,
        TokenType::True => "True"@,
        TokenType::Try => "Try"@,
        TokenType::Unless => "Unless"@,
        TokenType::When => "When"@,
        TokenType::While => "While"@,
    }
}

/// `prefix` followed by the escaped text and `")`.
fn quoted_payload(prefix: &str, text: &String) -> (r: String)
    ensures
        r@ == prefix@ + debug_escaped(text@) + "\")"@,
{
    let mut out = String::from_str(prefix);
    let n = text.as_str().unicode_len();
    let mut i: usize = 0;
    while i < n
        invariant
            n == text@.len(),
            i <= n,
            out@ == prefix@ + debug_escaped(text@.subrange(0, i as int)),
        decreases n - i,
    {
        let c = text.as_str().get_char(i);
        proof {
            reveal_strlit("\\");
            assert(text@.subrange(0, i + 1).drop_last() =~= text@.subrange(0, i as int));
        }
        if c == '"' {
            push_char(&mut out, '\\');
            push_char(&mut out, '"');
        } else if c == '\\' {
            push_char(&mut out, '\\');
            push_char(&mut out, '\\');
        } else if c == '\n' {
            push_char(&mut out, '\\');
            push_char(&mut out, 'n');
        } else if c == '\r' {
            push_char(&mut out, '\\');
            push_char(&mut out, 'r');
        } else if c == '\t' {
            push_char(&mut out, '\\');
            push_char(&mut out, 't');
        } else {
            push_char(&mut out, c);
        }
        proof {
            assert(out@ =~= prefix@ + debug_escaped(text@.subrange(0, i + 1)));
        }
        i = i + 1;
    }
    proof {
        assert(text@.subrange(0, n as int) =~= text@);
    }
    out.append("\")");
    out
}

/// The name of a token type in error messages (see `token_description`).
pub(crate) fn describe(t: &TokenType) -> (r: String)
    ensures
        r@ == token_description(*t),
{
    match t {
        TokenType::Alias => String::from_str("Alias"),
        TokenType::Ampersand => String::from_str("Ampersand"),
        TokenType::AmpersandAmpersand => String::from_str("AmpersandAmpersand"),
        TokenType::And => String::from_str("And"),
        TokenType::Arrow => String::from_str("Arrow"),
        TokenType::As => String::from_str("As"),
        TokenType::Bang => String::from_str("Bang"),
        TokenType::BangEqual => String::from_str("BangEqual"),
        TokenType::BigNumType => String::from_str("BigNumType"),
        TokenType::BoolType => String::from_str("BoolType"),
        TokenType::Break => String::from_str("Break"),
        TokenType::Caret => String::from_str("Caret"),
        TokenType::Catch => String::from_str("Catch"),
        TokenType::Colon => String::from_str("Colon"),
        TokenType::Comma => String::from_str("Comma"),
        TokenType::Configure => String::from_str("Configure"),
        TokenType::Continue => String::from_str("Continue"),
        TokenType::DataType => String::from_str("DataType"),
        TokenType::Dot => String::from_str("Dot"),
        TokenType::DotBangEqual => String::from_str("DotBangEqual"),
        TokenType::DotCaret => String::from_str("DotCaret"),
        TokenType::DotDotDot => String::from_str("DotDotDot"),
        TokenType::DotDoubleStar => String::from_str("DotDoubleStar"),
        TokenType::DotEqualEqual => String::from_str("DotEqualEqual"),
        TokenType::DotGreater => String::from_str("DotGreater"),
        TokenType::DotGreaterEqual => String::from_str("DotGreaterEqual"),
        TokenType::DotLess => String::from_str("DotLess"),
        TokenType::DotLessEqual => String::from_str("DotLessEqual"),
        TokenType::DotMinus => String::from_str("DotMinus"),
        TokenType::DotPercent => String::from_str("DotPercent"),
        TokenType::DotPlus => String::from_str("DotPlus"),
        TokenType::DotSlash => String::from_str("DotSlash"),
        TokenType::DotSlashSlash => String::from_str("DotSlashSlash"),
        TokenType::DotStar => String::from_str("DotStar"),
        TokenType::DoubleStar => String::from_str("DoubleStar"),
        TokenType::Else => String::from_str("Else"),
        TokenType::Eof => String::from_str("Eof"),
        TokenType::Equal => String::from_str("Equal"),
        TokenType::EqualEqual => String::from_str("EqualEqual"),
        TokenType::False => String::from_str("False"),
        TokenType::Finally => String::from_str("Finally"),
        TokenType::For => String::from_str("For"),
        TokenType::From => String::from_str("From"),
        TokenType::Func => String::from_str("Func"),
        TokenType::GraphType => String::from_str("GraphType"),
        TokenType::Greater => String::from_str("Greater"),
        TokenType::GreaterEqual => String::from_str("GreaterEqual"),
        TokenType::Identifier(text) => quoted_payload("Identifier(\"", text),
        TokenType::If => String::from_str("If"),
        TokenType::Import => String::from_str("Import"),
        TokenType::In => String::from_str("In"),
        TokenType::LeftBrace => String::from_str("LeftBrace"),
        TokenType::LeftBracket => String::from_str("LeftBracket"),
        TokenType::LeftParen => String::from_str("LeftParen"),
        TokenType::LeftShift => String::from_str("LeftShift"),
        TokenType::Less => String::from_str("Less"),
        TokenType::LessEqual => String::from_str("LessEqual"),
        TokenType::ListType => String::from_str("ListType"),
        TokenType::Load => String::from_str("Load"),
        TokenType::MapType => String::from_str("MapType"),
        TokenType::Match => String::from_str("Match"),
        TokenType::Minus => String::from_str("Minus"),
        TokenType::Module => String::from_str("Module"),
        TokenType::Newline => String::from_str("Newline"),
        TokenType::NoneKw => String::from_str("NoneKw"),
        TokenType::Not => String::from_str("Not"),
        TokenType::NumType => String::from_str("NumType"),
        TokenType::Number(_) => String::from_str("Number"),
        TokenType::Or => String::from_str("Or"),
        TokenType::Percent => String::from_str("Percent"),
        TokenType::Pipe => String::from_str("Pipe"),
        TokenType::PipePipe => String::from_str("PipePipe"),
        TokenType::Plus => String::from_str("Plus"),
        TokenType::Precision => String::from_str("Precision"),
        TokenType::Priv => String::from_str("Priv"),
        TokenType::Raise => String::from_str("Raise"),
        TokenType::RegexMatch => String::from_str("RegexMatch"),
        TokenType::RegexNoMatch => String::from_str("RegexNoMatch"),
        TokenType::Return => String::from_str("Return"),
        TokenType::RightBrace => String::from_str("RightBrace"),
        TokenType::RightBracket => String::from_str("RightBracket"),
        TokenType::RightParen => String::from_str("RightParen"),
        TokenType::RightShift => String::from_str("RightShift"),
        TokenType::Rule => String::from_str("Rule"),
        TokenType::Semicolon => String::from_str("Semicolon"),
        TokenType::SetKw => String::from_str("SetKw"),
        TokenType::Slash => String::from_str("Slash"),
        TokenType::SlashSlash => String::from_str("SlashSlash"),
        TokenType::Star => String::from_str("Star"),
        TokenType::Static => String::from_str("Static"),
        TokenType::String(text) => quoted_payload("String(\"", text),
        TokenType::StringType => String::from_str("StringType"),
        TokenType::Super => String::from_str("Super"),
        TokenType::Symbol(text) => quoted_payload("Symbol(\"", text),
        TokenType::Then => String::from_str("Then"),
        TokenType::Tilde => String::from_str("Tilde"),
        TokenType::TreeType => String::from_str("TreeType"),
        TokenType::True => String::from_str("True"),
        TokenType::Try => String::from_str("Try"),
        TokenType::Unless => String::from_str("Unless"),
        TokenType::When => String::from_str("When"),
        TokenType::While => String::from_str("While"),
    }
}

} // verus!
