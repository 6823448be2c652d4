//! Properties of generation that relate several inputs or several calls.
use vstd::prelude::*;
use crate::emitter::{collection_of, element_of};
use crate::parser::{fits_at, is_first_misfit, route_names_of, well_formed_with};
use crate::ident::is_raw_spelling;
use crate::resolver::constructor_path_of;
use crate::routes::{elements_for, expression_for, generation_ensures, is_first_raw};
use crate::token::{GenerateError, Token, TokenKind};

verus! {

/// A well-formed list of `n` names yields a collection of exactly `n`
/// elements, the `k`-th built from the `k`-th name of the input.
pub proof fn lemma_one_element_per_name(toks: Seq<Token>, acc: Seq<bool>)
    requires
        acc.len() == toks.len(),
        well_formed_with(toks, acc),
    ensures
        ({
            let names = route_names_of(toks);
            &&& names.len() == (toks.len() + 1) / 2
            &&& forall|k: int| 0 <= k < names.len() ==> #[trigger] names[k] == toks[2 * k].ident_text()
            &&& forall|i: int| 0 <= i < toks.len() && i % 2 == 1 ==> #[trigger] toks[i].is_comma()
            &&& expression_for(names) == collection_of(elements_for(names))
            &&& elements_for(names).len() == names.len()
            &&& forall|k: int|
                0 <= k < names.len() ==> #[trigger] elements_for(names)[k] == element_of(
                    constructor_path_of(names[k]),
                )
        }),
{
    assert forall|i: int| 0 <= i < toks.len() && i % 2 == 1 implies #[trigger] toks[i].is_comma() by {
        assert(fits_at(toks[i], i, acc[i]));
    }
}

/// A comma after the last name of a list changes nothing: the list is well
/// formed, has the same names and generates the same result as without it.
pub proof fn lemma_trailing_comma(toks: Seq<Token>, acc: Seq<bool>, comma: Token, flag: bool)
    requires
        acc.len() == toks.len(),
        toks.len() % 2 == 1,
        comma.is_comma(),
    ensures
        well_formed_with(toks.push(comma), acc.push(flag)) == well_formed_with(toks, acc),
        route_names_of(toks.push(comma)) == route_names_of(toks),
        forall|r: Result<String, GenerateError>|
            generation_ensures(toks.push(comma), acc.push(flag), r) <==> generation_ensures(
                toks,
                acc,
                r,
            ),
{
    let t2 = toks.push(comma);
    let a2 = acc.push(flag);
    assert(fits_at(t2[toks.len() as int], toks.len() as int, a2[toks.len() as int]));
    assert forall|i: int| 0 <= i < toks.len() implies t2[i] == toks[i] && a2[i] == acc[i] by {}
    if well_formed_with(toks, acc) {
        assert forall|i: int| 0 <= i < t2.len() implies #[trigger] fits_at(t2[i], i, a2[i]) by {
            if i < toks.len() {
                assert(fits_at(toks[i], i, acc[i]));
            }
        }
    }
    if well_formed_with(t2, a2) {
        assert forall|i: int| 0 <= i < toks.len() implies #[trigger] fits_at(toks[i], i, acc[i]) by {
            assert(fits_at(t2[i], i, a2[i]));
        }
    }
    assert(route_names_of(t2) =~= route_names_of(toks));
    assert forall|e: int| is_first_misfit(t2, a2, e) <==> is_first_misfit(toks, acc, e) by {
        if is_first_misfit(t2, a2, e) {
            assert forall|j: int| 0 <= j < e implies #[trigger] fits_at(toks[j], j, acc[j]) by {
                assert(fits_at(t2[j], j, a2[j]));
            }
        }
        if is_first_misfit(toks, acc, e) {
            assert forall|j: int| 0 <= j < e implies #[trigger] fits_at(t2[j], j, a2[j]) by {
                assert(fits_at(toks[j], j, acc[j]));
            }
        }
    }
}

/// Where some token breaks the grammar, an earliest one does.
pub proof fn lemma_first_misfit_exists(toks: Seq<Token>, acc: Seq<bool>, i: int)
    requires
        0 <= i < toks.len(),
        !fits_at(toks[i], i, acc[i]),
    ensures
        exists|j: int| 0 <= j <= i && is_first_misfit(toks, acc, j),
    decreases i,
{
    if forall|j: int| 0 <= j < i ==> #[trigger] fits_at(toks[j], j, acc[j]) {
        assert(is_first_misfit(toks, acc, i));
    } else {
        let j = choose|j: int| 0 <= j < i && !#[trigger] fits_at(toks[j], j, acc[j]);
        lemma_first_misfit_exists(toks, acc, j);
    }
}

/// A token that is neither an identifier nor a comma makes the list
/// malformed: generation fails, at that token or at an earlier one, and
/// produces no expression.
pub proof fn lemma_non_identifier_rejected(toks: Seq<Token>, acc: Seq<bool>, i: int)
    requires
        acc.len() == toks.len(),
        0 <= i < toks.len(),
        match toks[i].kind {
            TokenKind::Ident(_) => false,
            TokenKind::Punct(c) => c != ',',
            _ => true,
        },
    ensures
        !well_formed_with(toks, acc),
        exists|j: int| 0 <= j <= i && is_first_misfit(toks, acc, j),
        forall|r: Result<String, GenerateError>|
            generation_ensures(toks, acc, r) ==> (r matches Err(GenerateError::Malformed(e))
                && e.index <= i),
{
    assert(!fits_at(toks[i], i, acc[i]));
    lemma_first_misfit_exists(toks, acc, i);
    assert forall|r: Result<String, GenerateError>|
        generation_ensures(toks, acc, r) implies (r matches Err(GenerateError::Malformed(e))
        && e.index <= i) by {
        assert(fits_at(toks[i], i, acc[i]) || !well_formed_with(toks, acc));
        if let Err(GenerateError::Malformed(e)) = r {
            if e.index > i {
                assert(fits_at(toks[i], i, acc[i]));
            }
        }
    }
}

/// Generation is deterministic: two runs on the same tokens, with the same
/// answers on which spellings are identifiers, give the same text or the
/// same error.
pub proof fn lemma_generation_deterministic(
    toks: Seq<Token>,
    acc: Seq<bool>,
    r1: Result<String, GenerateError>,
    r2: Result<String, GenerateError>,
)
    requires
        generation_ensures(toks, acc, r1),
        generation_ensures(toks, acc, r2),
    ensures
        match (r1, r2) {
            (Ok(a), Ok(b)) => a@ == b@,
            (Err(a), Err(b)) => a == b,
            _ => false,
        },
{
    let names = route_names_of(toks);
    match (r1, r2) {
        (Ok(_), Err(GenerateError::Malformed(b))) | (Err(GenerateError::RawName(_)), Err(
            GenerateError::Malformed(b),
        )) => {
            assert(fits_at(toks[b.index as int], b.index as int, acc[b.index as int]));
        },
        (Err(GenerateError::Malformed(a)), Ok(_)) | (Err(GenerateError::Malformed(a)), Err(
            GenerateError::RawName(_),
        )) => {
            assert(fits_at(toks[a.index as int], a.index as int, acc[a.index as int]));
        },
        (Err(GenerateError::Malformed(a)), Err(GenerateError::Malformed(b))) => {
            if a.index < b.index {
                assert(fits_at(toks[a.index as int], a.index as int, acc[a.index as int]));
            } else if b.index < a.index {
                assert(fits_at(toks[b.index as int], b.index as int, acc[b.index as int]));
            }
        },
        (Ok(_), Err(GenerateError::RawName(b))) => {
            assert(is_first_raw(names, (b.index / 2) as int));
            assert(!is_raw_spelling(names[(b.index / 2) as int]));
        },
        (Err(GenerateError::RawName(a)), Ok(_)) => {
            assert(is_first_raw(names, (a.index / 2) as int));
            assert(!is_raw_spelling(names[(a.index / 2) as int]));
        },
        (Err(GenerateError::RawName(a)), Err(GenerateError::RawName(b))) => {
            let (ka, kb) = ((a.index / 2) as int, (b.index / 2) as int);
            if ka < kb {
                assert(!is_raw_spelling(names[ka]));
            } else if kb < ka {
                assert(!is_raw_spelling(names[kb]));
            }
        },
        _ => {},
    }
}

} // verus!
