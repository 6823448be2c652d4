//! The whole generation: parse, resolve, emit.
use vstd::prelude::*;
use crate::emitter::{collection_of, element_of, elements_of, emit};
use crate::ident::{is_raw, is_raw_spelling};
use crate::parser::{
    acceptance_of, flags_allowed, is_first_misfit, parse_with, route_names_of, well_formed_with,
};
use crate::resolver::{constructor_path_of, resolve_all};
use crate::token::{GenerateError, RawRouteName, RouteName, Token};

verus! {

/// The elements generated for the route names `names`, in their order.
pub open spec fn elements_for(names: Seq<Seq<char>>) -> Seq<Seq<char>> {
    names.map_values(|n: Seq<char>| element_of(constructor_path_of(n)))
}

/// The expression generated for the route names `names`.
pub open spec fn expression_for(names: Seq<Seq<char>>) -> Seq<char> {
    collection_of(elements_for(names))
}

/// `k` is the first of `names` that is a raw identifier.
pub open spec fn is_first_raw(names: Seq<Seq<char>>, k: int) -> bool {
    &&& 0 <= k < names.len()
    &&& is_raw_spelling(names[k])
    &&& forall|j: int| 0 <= j < k ==> !is_raw_spelling(#[trigger] names[j])
}

/// None of `names` is a raw identifier.
pub open spec fn no_raw_names(names: Seq<Seq<char>>) -> bool {
    forall|k: int| 0 <= k < names.len() ==> !is_raw_spelling(#[trigger] names[k])
}

/// What generation with acceptance flags `acc` returns for `toks`: the
/// expression for its route names when the list is well formed and holds no
/// raw name; else the first offending token with its position.
pub open spec fn generation_ensures(
    toks: Seq<Token>,
    acc: Seq<bool>,
    r: Result<String, GenerateError>,
) -> bool {
    match r {
        Ok(s) => {
            &&& well_formed_with(toks, acc)
            &&& no_raw_names(route_names_of(toks))
            &&& s@ == expression_for(route_names_of(toks))
        },
        Err(GenerateError::Malformed(e)) => {
            &&& is_first_misfit(toks, acc, e.index as int)
            &&& e.line == toks[e.index as int].line
            &&& e.column == toks[e.index as int].column
        },
        Err(GenerateError::RawName(e)) => {
            &&& well_formed_with(toks, acc)
            &&& e.index % 2 == 0
            &&& is_first_raw(route_names_of(toks), (e.index / 2) as int)
            &&& e.line == toks[e.index as int].line
            &&& e.column == toks[e.index as int].column
        },
    }
}

/// Finds the first raw identifier among `names`.
fn first_raw(names: &Vec<RouteName>) -> (r: Option<usize>)
    ensures
        match r {
            Some(k) => is_first_raw(names@.map_values(|n: RouteName| n.name@), k as int),
            None => no_raw_names(names@.map_values(|n: RouteName| n.name@)),
        },
{
    let ghost spelled = names@.map_values(|n: RouteName| n.name@);
    let mut k: usize = 0;
    while k < names.len()
        invariant
            0 <= k <= names.len(),
            spelled == names@.map_values(|n: RouteName| n.name@),
            forall|j: int| 0 <= j < k ==> !is_raw_spelling(#[trigger] spelled[j]),
        decreases names.len() - k,
    {
        if is_raw(names[k].name.as_str()) {
            return Some(k);
        }
        k = k + 1;
    }
    None
}

/// Generates the route collection expression for `tokens`, where
/// `accepted[i]` tells whether the spelling of `tokens[i]` is accepted as an
/// identifier.
pub fn create_routes_with(tokens: &Vec<Token>, accepted: &Vec<bool>) -> (r: Result<
    String,
    GenerateError,
>)
    requires
        accepted.len() == tokens.len(),
    ensures
        generation_ensures(tokens@, accepted@, r),
{
    match parse_with(tokens, accepted) {
        Ok(names) => {
            assert(names@.map_values(|n: RouteName| n.name@) =~= route_names_of(tokens@)) by {
                assert forall|k: int| 0 <= k < names@.len() implies #[trigger] names@[k].name@
                    == route_names_of(tokens@)[k] by {}
            }
            match first_raw(&names) {
                Some(k) => {
                    assert(names@[k as int].name@ == tokens@[2 * k].ident_text());
                    return Err(
                        GenerateError::RawName(
                            RawRouteName {
                                index: 2 * k,
                                line: names[k].line,
                                column: names[k].column,
                            },
                        ),
                    );
                },
                None => {},
            }
            let bindings = resolve_all(&names);
            let text = emit(&bindings);
            assert(elements_of(bindings@) =~= elements_for(route_names_of(tokens@))) by {
                assert forall|k: int| 0 <= k < bindings@.len() implies #[trigger] elements_of(
                    bindings@,
                )[k] == elements_for(route_names_of(tokens@))[k] by {
                    assert(bindings@[k].resolves(names@[k]));
                    assert(names@[k].name@ == tokens@[2 * k].ident_text());
                }
            }
            Ok(text)
        },
        Err(e) => Err(GenerateError::Malformed(e)),
    }
}

/// Generates the route collection expression for `tokens`, asking syn which
/// spellings are identifiers: the result is what `create_routes_with` gives
/// for some answers that syn may give.
pub fn create_routes(tokens: &Vec<Token>) -> (r: Result<String, GenerateError>)
    ensures
        exists|acc: Seq<bool>| #[trigger] flags_allowed(tokens@, acc) && generation_ensures(
            tokens@,
            acc,
            r,
        ),
{
    let accepted = acceptance_of(tokens);
    let r = create_routes_with(tokens, &accepted);
    assert(flags_allowed(tokens@, accepted@) && generation_ensures(tokens@, accepted@, r));
    r
}

} // verus!
