//! Recognition of identifiers, through syn.
use vstd::prelude::*;

verus! {

/// The spellings that syn's `Ident` parser refuses (`accept_as_ident`): `_`
/// and the keywords of its list, spelled out character by character.
pub open spec fn syn_reserved(s: Seq<char>) -> bool {
    ||| s =~= seq!['_']
    ||| s =~= seq!['a', 'b', 's', 't', 'r', 'a', 'c', 't']
    ||| s =~= seq!['a', 's']
    ||| s =~= seq!['a', 's', 'y', 'n', 'c']
    ||| s =~= seq!['a', 'w', 'a', 'i', 't']
    ||| s =~= seq!['b', 'e', 'c', 'o', 'm', 'e']
    ||| s =~= seq!['b', 'o', 'x']
    ||| s =~= seq!['b', 'r', 'e', 'a', 'k']
    ||| s =~= seq!['c', 'o', 'n', 's', 't']
    ||| s =~= seq!['c', 'o', 'n', 't', 'i', 'n', 'u', 'e']
    ||| s =~= seq!['c', 'r', 'a', 't', 'e']
    ||| s =~= seq!['d', 'o']
    ||| s =~= seq!['d', 'y', 'n']
    ||| s =~= seq!['e', 'l', 's', 'e']
    ||| s =~= seq!['e', 'n', 'u', 'm']
    ||| s =~= seq!['e', 'x', 't', 'e', 'r', 'n']
    ||| s =~= seq!['f', 'a', 'l', 's', 'e']
    ||| s =~= seq!['f', 'i', 'n', 'a', 'l']
    ||| s =~= seq!['f', 'n']
    ||| s =~= seq!['f', 'o', 'r']
    ||| s =~= seq!['i', 'f']
    ||| s =~= seq!['i', 'm', 'p', 'l']
    ||| s =~= seq!['i', 'n']
    ||| s =~= seq!['l', 'e', 't']
    ||| s =~= seq!['l', 'o', 'o', 'p']
    ||| s =~= seq!['m', 'a', 'c', 'r', 'o']
    ||| s =~= seq!['m', 'a', 't', 'c', 'h']
    ||| s =~= seq!['m', 'o', 'd']
    ||| s =~= seq!['m', 'o', 'v', 'e']
    ||| s =~= seq!['m', 'u', 't']
    ||| s =~= seq!['o', 'v', 'e', 'r', 'r', 'i', 'd', 'e']
    ||| s =~= seq!['p', 'r', 'i', 'v']
    ||| s =~= seq!['p', 'u', 'b']
    ||| s =~= seq!['r', 'e', 'f']
    ||| s =~= seq!['r', 'e', 't', 'u', 'r', 'n']
    ||| s =~= seq!['S', 'e', 'l', 'f']
    ||| s =~= seq!['s', 'e', 'l', 'f']
    ||| s =~= seq!['s', 't', 'a', 't', 'i', 'c']
    ||| s =~= seq!['s', 't', 'r', 'u', 'c', 't']
    ||| s =~= seq!['s', 'u', 'p', 'e', 'r']
    ||| s =~= seq!['t', 'r', 'a', 'i', 't']
    ||| s =~= seq!['t', 'r', 'u', 'e']
    ||| s =~= seq!['t', 'r', 'y']
    ||| s =~= seq!['t', 'y', 'p', 'e']
    ||| s =~= seq!['t', 'y', 'p', 'e', 'o', 'f']
    ||| s =~= seq!['u', 'n', 's', 'a', 'f', 'e']
    ||| s =~= seq!['u', 'n', 's', 'i', 'z', 'e', 'd']
    ||| s =~= seq!['u', 's', 'e']
    ||| s =~= seq!['v', 'i', 'r', 't', 'u', 'a', 'l']
    ||| s =~= seq!['w', 'h', 'e', 'r', 'e']
    ||| s =~= seq!['w', 'h', 'i', 'l', 'e']
    ||| s =~= seq!['y', 'i', 'e', 'l', 'd']
}

pub open spec fn is_ascii_ident_start(c: char) -> bool {
    ('a' <= c && c <= 'z') || ('A' <= c && c <= 'Z') || c == '_'
}

pub open spec fn is_ascii_ident_continue(c: char) -> bool {
    is_ascii_ident_start(c) || ('0' <= c && c <= '9')
}

/// `s` has the shape `[A-Za-z_][A-Za-z0-9_]*`, which every Rust lexer reads
/// as one identifier.
pub open spec fn ascii_ident(s: Seq<char>) -> bool {
    &&& s.len() >= 1
    &&& is_ascii_ident_start(s[0])
    &&& forall|i: int| 1 <= i < s.len() ==> is_ascii_ident_continue(#[trigger] s[i])
}

/// `s` opens no delimited group.
pub open spec fn no_open_delimiter(s: Seq<char>) -> bool {
    forall|i: int| 0 <= i < s.len() ==> s[i] != '(' && s[i] != '[' && s[i] != '{'
}

/// Relies on `syn::parse_str::<syn::Ident>`, for whether the text is a single
/// identifier token that syn accepts. syn refuses its reserved spellings
/// whichever lexer proc-macro2 uses (the compiler's inside a procedural
/// macro, its own elsewhere), and both lexers read a plain ASCII identifier
/// as one token; on other text the answer may depend on the lexer. Text that
/// opens no delimiter keeps syn's token buffer flat: nested groups make it
/// recurse once per level.
#[verifier::external_body]
pub(crate) fn accepts_as_ident(s: &str) -> (r: bool)
    requires
        no_open_delimiter(s@),
    ensures
        syn_reserved(s@) ==> !r,
        ascii_ident(s@) && !syn_reserved(s@) ==> r,
{
    syn::parse_str::<syn::Ident>(s).is_ok()
}

/// Tests whether `s` opens no delimited group.
pub fn has_no_open_delimiter(s: &str) -> (r: bool)
    ensures
        r == no_open_delimiter(s@),
{
    let n: usize = s.unicode_len();
    let mut i: usize = 0;
    while i < n
        invariant
            0 <= i <= n,
            n == s@.len(),
            no_open_delimiter(s@.take(i as int)),
        decreases n - i,
    {
        let c = s.get_char(i);
        if c == '(' || c == '[' || c == '{' {
            assert(!no_open_delimiter(s@)) by {
                assert(s@[i as int] == c);
            }
            return false;
        }
        assert(s@.take(i + 1) =~= s@.take(i as int).push(c));
        i = i + 1;
    }
    assert(s@.take(n as int) =~= s@);
    true
}

/// A raw identifier (`r#name`).
pub open spec fn is_raw_spelling(s: Seq<char>) -> bool {
    s.len() >= 2 && s[0] == 'r' && s[1] == '#'
}

/// Tests whether `s` starts with `r#`.
pub fn is_raw(s: &str) -> (r: bool)
    ensures
        r == is_raw_spelling(s@),
{
    let n: usize = s.unicode_len();
    n >= 2 && s.get_char(0) == 'r' && s.get_char(1) == '#'
}

} // verus!
