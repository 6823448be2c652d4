//! Rendering of the ordered collection of handlers.
use vstd::prelude::*;
use crate::resolver::ResolvedBinding;

verus! {

/// One element: the handler built by its constructor, boxed so that handlers
/// of different types share one collection.
pub open spec fn element_of(constructor_path: Seq<char>) -> Seq<char> {
    "Box::new(self::"@ + constructor_path + "::new())"@
}

/// The items separated by `, `.
pub open spec fn joined(items: Seq<Seq<char>>) -> Seq<char>
    decreases items.len(),
{
    if items.len() == 0 {
        Seq::empty()
    } else if items.len() == 1 {
        items[0]
    } else {
        joined(items.drop_last()) + ", "@ + items.last()
    }
}

/// The collection literal holding `items` in order.
pub open spec fn collection_of(items: Seq<Seq<char>>) -> Seq<char> {
    "vec!["@ + joined(items) + "]"@
}

/// The elements for `bindings`, one per binding and in their order.
pub open spec fn elements_of(bindings: Seq<ResolvedBinding>) -> Seq<Seq<char>> {
    bindings.map_values(|b: ResolvedBinding| element_of(b.constructor_path@))
}

proof fn lemma_joined_push(items: Seq<Seq<char>>, i: int)
    requires
        0 < i < items.len(),
    ensures
        joined(items.take(i + 1)) == joined(items.take(i)) + ", "@ + items[i],
{
    assert(items.take(i + 1).drop_last() =~= items.take(i));
}

/// Renders the collection expression for `bindings`, keeping their order.
pub fn emit(bindings: &Vec<ResolvedBinding>) -> (r: String)
    ensures
        r@ == collection_of(elements_of(bindings@)),
{
    let ghost items = elements_of(bindings@);
    let mut r = String::from_str("vec![");
    let mut i: usize = 0;
    while i < bindings.len()
        invariant
            0 <= i <= bindings.len(),
            items == elements_of(bindings@),
            r@ == "vec!["@ + joined(items.take(i as int)),
        decreases bindings.len() - i,
    {
        if i > 0 {
            r.append(", ");
        }
        r.append("Box::new(self::");
        r.append(bindings[i].constructor_path.as_str());
        r.append("::new())");
        proof {
            if i > 0 {
                lemma_joined_push(items, i as int);
            } else {
                assert(items.take(1) =~= seq![items[0]]);
            }
        }
        i = i + 1;
    }
    r.append("]");
    assert(items.take(bindings.len() as int) =~= items);
    r
}

} // verus!
