//! The plain values that the generator reads and produces.
use vstd::prelude::*;

verus! {

/// What a single input token is.
#[derive(Debug)]
pub enum TokenKind {
    /// An identifier or keyword, spelled as in the source (`r#` kept).
    Ident(String),
    /// A single punctuation character.
    Punct(char),
    /// A literal, spelled as in the source.
    Literal(String),
    /// A delimited group, by its opening delimiter (`' '` when invisible).
    Group(char),
}

/// An input token with the position where it starts (1-based line, 0-based column).
#[derive(Debug)]
pub struct Token {
    pub kind: TokenKind,
    pub line: usize,
    pub column: usize,
}

/// A route name accepted by the parser, with its source position.
#[derive(Debug)]
pub struct RouteName {
    pub name: String,
    pub line: usize,
    pub column: usize,
}

/// The input is not a comma-separated list of bare identifiers.
///
/// `index` is the position of the offending token in the input; `line` and
/// `column` are that token's source position.
#[derive(Debug, Clone, Copy, PartialEq, Eq, Structural)]
pub struct MalformedList {
    pub index: usize,
    pub line: usize,
    pub column: usize,
}

/// A route name is a raw identifier (`r#name`), from which the naming
/// convention forms no module name.
///
/// `index` is the position of the name's token in the input; `line` and
/// `column` are that token's source position.
#[derive(Debug, Clone, Copy, PartialEq, Eq, Structural)]
pub struct RawRouteName {
    pub index: usize,
    pub line: usize,
    pub column: usize,
}

/// Why no route collection was generated.
#[derive(Debug, Clone, Copy, PartialEq, Eq, Structural)]
pub enum GenerateError {
    Malformed(MalformedList),
    RawName(RawRouteName),
}

impl Token {
    /// The spelling of an identifier token; empty for any other token.
    pub open spec fn ident_text(self) -> Seq<char> {
        match self.kind {
            TokenKind::Ident(s) => s@,
            _ => Seq::empty(),
        }
    }

    pub open spec fn is_comma(self) -> bool {
        self.kind == TokenKind::Punct(',')
    }
}

impl MalformedList {
    /// What the grammar expected at the offending token: a route name at
    /// even positions, a comma at odd ones.
    pub fn message(&self) -> (r: String)
        ensures
            r@ == (if self.index % 2 == 0 {
                "expected identifier"@
            } else {
                "expected `,`"@
            }),
    {
        if self.index % 2 == 0 {
            String::from_str("expected identifier")
        } else {
            String::from_str("expected `,`")
        }
    }
}

impl GenerateError {
    /// The position in the input of the offending token.
    pub fn index(&self) -> (r: usize)
        ensures
            r == match *self {
                GenerateError::Malformed(e) => e.index,
                GenerateError::RawName(e) => e.index,
            },
    {
        match self {
            GenerateError::Malformed(e) => e.index,
            GenerateError::RawName(e) => e.index,
        }
    }

    /// A description of the error for a diagnostic.
    pub fn message(&self) -> (r: String)
        ensures
            r@ == match *self {
                GenerateError::Malformed(e) => if e.index % 2 == 0 {
                    "expected identifier"@
                } else {
                    "expected `,`"@
                },
                GenerateError::RawName(_) => "expected a route name without `r#`"@,
            },
    {
        match self {
            GenerateError::Malformed(e) => e.message(),
            GenerateError::RawName(_) => String::from_str("expected a route name without `r#`"),
        }
    }
}

} // verus!
