//! The route list grammar: identifiers separated by commas, with an optional
//! trailing comma; the empty list is accepted.
use vstd::prelude::*;
use crate::ident::{
    accepts_as_ident, ascii_ident, has_no_open_delimiter, no_open_delimiter, syn_reserved,
};
use crate::token::{MalformedList, RouteName, Token, TokenKind};

verus! {

/// Whether token `t` may stand at position `i` of a route list, where
/// `accepted` tells whether syn accepts its spelling as an identifier.
/// Names stand at even positions, commas at odd ones.
pub open spec fn fits_at(t: Token, i: int, accepted: bool) -> bool {
    if i % 2 == 0 {
        match t.kind {
            TokenKind::Ident(_) => accepted,
            _ => false,
        }
    } else {
        t.is_comma()
    }
}

/// The input is a well-formed route list.
pub open spec fn well_formed_with(toks: Seq<Token>, acc: Seq<bool>) -> bool {
    forall|i: int| 0 <= i < toks.len() ==> #[trigger] fits_at(toks[i], i, acc[i])
}

/// `i` is the first position at which the input breaks the grammar.
pub open spec fn is_first_misfit(toks: Seq<Token>, acc: Seq<bool>, i: int) -> bool {
    &&& 0 <= i < toks.len()
    &&& !fits_at(toks[i], i, acc[i])
    &&& forall|j: int| 0 <= j < i ==> #[trigger] fits_at(toks[j], j, acc[j])
}

/// The route names of a list: the spellings at its even positions.
pub open spec fn route_names_of(toks: Seq<Token>) -> Seq<Seq<char>> {
    Seq::new(((toks.len() + 1) / 2) as nat, |k: int| toks[2 * k].ident_text())
}

/// `names` are the route names of `toks`, each with the position of its token.
pub open spec fn names_match(names: Seq<RouteName>, toks: Seq<Token>) -> bool {
    &&& names.len() == (toks.len() + 1) / 2
    &&& forall|k: int|
        0 <= k < names.len() ==> {
            &&& #[trigger] names[k].name@ == toks[2 * k].ident_text()
            &&& names[k].line == toks[2 * k].line
            &&& names[k].column == toks[2 * k].column
        }
}

/// What parsing with acceptance flags `acc` returns for `toks`.
pub open spec fn parse_ensures(
    toks: Seq<Token>,
    acc: Seq<bool>,
    r: Result<Vec<RouteName>, MalformedList>,
) -> bool {
    match r {
        Ok(names) => well_formed_with(toks, acc) && names_match(names@, toks),
        Err(e) => {
            &&& is_first_misfit(toks, acc, e.index as int)
            &&& e.line == toks[e.index as int].line
            &&& e.column == toks[e.index as int].column
        },
    }
}

/// `f` is an answer that syn may give for token `t`: never yes for a token
/// that is not an identifier, for a spelling that opens a delimiter or for a
/// reserved one, and always yes for a plain ASCII identifier that is not
/// reserved.
pub open spec fn flag_allowed(t: Token, f: bool) -> bool {
    match t.kind {
        TokenKind::Ident(s) => {
            &&& f ==> no_open_delimiter(s@) && !syn_reserved(s@)
            &&& ascii_ident(s@) && !syn_reserved(s@) ==> f
        },
        _ => !f,
    }
}

/// `acc` holds, for each token, an answer that syn may give.
pub open spec fn flags_allowed(toks: Seq<Token>, acc: Seq<bool>) -> bool {
    &&& acc.len() == toks.len()
    &&& forall|i: int| 0 <= i < toks.len() ==> #[trigger] flag_allowed(toks[i], acc[i])
}

/// Parses a route list, where `accepted[i]` tells whether the spelling of
/// `tokens[i]` is accepted as an identifier. Stops at the first token that
/// breaks the grammar.
pub fn parse_with(tokens: &Vec<Token>, accepted: &Vec<bool>) -> (r: Result<
    Vec<RouteName>,
    MalformedList,
>)
    requires
        accepted.len() == tokens.len(),
    ensures
        parse_ensures(tokens@, accepted@, r),
{
    let mut names: Vec<RouteName> = Vec::new();
    let mut i: usize = 0;
    while i < tokens.len()
        invariant
            0 <= i <= tokens.len(),
            accepted.len() == tokens.len(),
            names@.len() == (i + 1) / 2,
            forall|j: int| 0 <= j < i ==> #[trigger] fits_at(tokens@[j], j, accepted@[j]),
            forall|k: int|
                0 <= k < names@.len() ==> {
                    &&& #[trigger] names@[k].name@ == tokens@[2 * k].ident_text()
                    &&& names@[k].line == tokens@[2 * k].line
                    &&& names@[k].column == tokens@[2 * k].column
                },
        decreases tokens.len() - i,
    {
        let t = &tokens[i];
        let fits = if i % 2 == 0 {
            match &t.kind {
                TokenKind::Ident(s) => {
                    if accepted[i] {
                        names.push(RouteName { name: s.clone(), line: t.line, column: t.column });
                        assert(2 * (names@.len() - 1) == i);
                        assert(names@.last().name@ == tokens@[i as int].ident_text());
                        true
                    } else {
                        false
                    }
                },
                _ => false,
            }
        } else {
            match &t.kind {
                TokenKind::Punct(c) => *c == ',',
                _ => false,
            }
        };
        if !fits {
            return Err(MalformedList { index: i, line: t.line, column: t.column });
        }
        i = i + 1;
    }
    assert(well_formed_with(tokens@, accepted@));
    assert(names_match(names@, tokens@));
    Ok(names)
}

/// Parses a route list, asking syn whether each identifier is one: the result
/// is what `parse_with` gives for some answers that syn may give.
pub fn parse(tokens: &Vec<Token>) -> (r: Result<Vec<RouteName>, MalformedList>)
    ensures
        exists|acc: Seq<bool>| #[trigger] flags_allowed(tokens@, acc) && parse_ensures(tokens@, acc, r),
{
    let accepted = acceptance_of(tokens);
    let r = parse_with(tokens, &accepted);
    assert(flags_allowed(tokens@, accepted@) && parse_ensures(tokens@, accepted@, r));
    r
}

/// Asks syn, for each token, whether it is an identifier that syn accepts;
/// a spelling that opens a delimiter is not asked and gets no.
pub fn acceptance_of(tokens: &Vec<Token>) -> (r: Vec<bool>)
    ensures
        flags_allowed(tokens@, r@),
{
    let mut flags: Vec<bool> = Vec::new();
    let mut i: usize = 0;
    while i < tokens.len()
        invariant
            0 <= i <= tokens.len(),
            flags@.len() == i,
            forall|j: int| 0 <= j < i ==> #[trigger] flag_allowed(tokens@[j], flags@[j]),
        decreases tokens.len() - i,
    {
        let flag = match &tokens[i].kind {
            TokenKind::Ident(s) => has_no_open_delimiter(s.as_str()) && accepts_as_ident(
                s.as_str(),
            ),
            _ => false,
        };
        flags.push(flag);
        assert(flag_allowed(tokens@[i as int], flags@[i as int]));
        i = i + 1;
    }
    flags
}

} // verus!
