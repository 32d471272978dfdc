//! Interned names, as `string_cache` provides them.
//!
//! An atom stands for the string it interns. `string_cache` keeps every
//! string once, so that two atoms are equal exactly when their strings
//! are: an atom made of a text holds that text, and atoms made of the
//! same text are the same atom. The library makes atoms, copies them and
//! compares them; it never reads one.

use string_cache::DefaultAtom;
use vstd::prelude::*;

verus! {

/// `string_cache::Atom`, of which `DefaultAtom` is the instance without
/// compile-time strings.
#[verifier::external_type_specification]
#[verifier::external_body]
#[verifier::reject_recursive_types(Static)]
pub struct ExAtom<Static>(string_cache::Atom<Static>);

/// `string_cache::EmptyStaticAtomSet`, the marker in `DefaultAtom`.
#[verifier::external_type_specification]
#[verifier::external_body]
pub struct ExEmptyStaticAtomSet(string_cache::EmptyStaticAtomSet);

/// The atom that interning `text` yields.
pub uninterp spec fn atom_of(text: Seq<char>) -> DefaultAtom;

/// The text that an atom holds: what its `Deref` to `str` gives.
pub uninterp spec fn atom_text(atom: DefaultAtom) -> Seq<char>;

/// Calls `Atom::from(&str)`, which interns the text. The atom depends on
/// the text alone: interning the same text again gives an equal atom.
/// And the atom holds the text it was made of, so that atoms made of
/// different texts are different.
#[verifier::external_body]
pub(crate) fn intern(text: &str) -> (atom: DefaultAtom)
    ensures
        atom == atom_of(text@),
        atom_text(atom) == text@,
{
    DefaultAtom::from(text)
}

/// Calls `==` on two atoms, which compares what the two hold and nothing
/// else: the answer is whether they are the same atom.
#[verifier::external_body]
pub(crate) fn same_atom(a: &DefaultAtom, b: &DefaultAtom) -> (same: bool)
    ensures
        same == (*a == *b),
{
    a == b
}

/// Calls `Atom::clone`, which hands out the same atom once more.
#[verifier::external_body]
pub(crate) fn clone_atom(a: &DefaultAtom) -> (copy: DefaultAtom)
    ensures
        copy == *a,
{
    a.clone()
}

} // verus!
