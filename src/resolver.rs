//! The naming convention that links a route name to the module and the
//! handler constructor generated for it elsewhere.
use vstd::prelude::*;
use crate::token::RouteName;

verus! {

/// `__<name>_mod__`
pub open spec fn module_name_of(name: Seq<char>) -> Seq<char> {
    "__"@ + name + "_mod__"@
}

/// `__<name>_mod__::<name>_handler`
pub open spec fn constructor_path_of(name: Seq<char>) -> Seq<char> {
    module_name_of(name) + "::"@ + name + "_handler"@
}

/// A route name with the two identifiers derived from it.
#[derive(Debug)]
pub struct ResolvedBinding {
    pub module_name: String,
    pub constructor_path: String,
    pub source: RouteName,
}

impl ResolvedBinding {
    /// This binding is the one that `token` resolves to.
    pub open spec fn resolves(&self, token: RouteName) -> bool {
        &&& self.module_name@ == module_name_of(token.name@)
        &&& self.constructor_path@ == constructor_path_of(token.name@)
        &&& self.source.name@ == token.name@
        &&& self.source.line == token.line
        &&& self.source.column == token.column
    }
}

/// The module that holds the handler of route `name`.
pub fn module_name(name: &str) -> (r: String)
    ensures
        r@ == module_name_of(name@),
{
    let mut r = String::from_str("__");
    r.append(name);
    r.append("_mod__");
    r
}

/// The path of the handler type of route `name`.
pub fn constructor_path(name: &str) -> (r: String)
    ensures
        r@ == constructor_path_of(name@),
{
    let mut r = module_name(name);
    r.append("::");
    r.append(name);
    r.append("_handler");
    r
}

/// Derives the binding of one route name.
pub fn resolve(token: &RouteName) -> (b: ResolvedBinding)
    ensures
        b.resolves(*token),
{
    let module_name = module_name(token.name.as_str());
    let constructor_path = constructor_path(token.name.as_str());
    let source = RouteName { name: token.name.clone(), line: token.line, column: token.column };
    ResolvedBinding { module_name, constructor_path, source }
}

/// Derives the bindings of a list of route names, in the same order.
pub fn resolve_all(tokens: &Vec<RouteName>) -> (r: Vec<ResolvedBinding>)
    ensures
        r@.len() == tokens@.len(),
        forall|i: int| 0 <= i < r@.len() ==> (#[trigger] r@[i]).resolves(tokens@[i]),
{
    let mut r: Vec<ResolvedBinding> = Vec::new();
    let mut i: usize = 0;
    while i < tokens.len()
        invariant
            0 <= i <= tokens.len(),
            r@.len() == i,
            forall|j: int| 0 <= j < i ==> (#[trigger] r@[j]).resolves(tokens@[j]),
        decreases tokens.len() - i,
    {
        r.push(resolve(&tokens[i]));
        i = i + 1;
    }
    r
}

} // verus!
