//! Qualified names: a namespace and a local name.
//!
//! Namespaces are not resolved. Every tag name is placed in one fixed
//! namespace, so that two tags bear the same qualified name exactly when
//! their local names are the same atom.

use crate::atoms::{atom_of, clone_atom, intern, same_atom};
use string_cache::DefaultAtom;
use vstd::prelude::*;

verus! {

/// A namespace, named by its URI.
#[derive(Debug, PartialEq, Eq)]
pub struct Namespace(pub DefaultAtom);

/// An element or attribute name together with its namespace.
#[derive(Debug, PartialEq, Eq)]
pub struct QualName {
    pub ns: Namespace,
    pub local: DefaultAtom,
}

/// The namespace that stands in for every tag's namespace.
pub open spec fn placeholder_namespace() -> Namespace {
    Namespace(atom_of("http://www.w3.org/1999/xhtml"@))
}

/// The qualified name that a tag's local name resolves to.
pub open spec fn resolved_name(local: DefaultAtom) -> QualName {
    QualName { ns: placeholder_namespace(), local }
}

impl Namespace {
    /// The namespace that stands in for every tag's namespace.
    pub fn placeholder() -> (ns: Namespace)
        ensures
            ns == placeholder_namespace(),
    {
        Namespace(intern("http://www.w3.org/1999/xhtml"))
    }
}

impl QualName {
    /// The name `local` in the namespace `ns`.
    pub fn new(ns: Namespace, local: DefaultAtom) -> (name: QualName)
        ensures
            name == (QualName { ns, local }),
    {
        QualName { ns, local }
    }

    /// The qualified name of a tag with the local name `local`.
    pub fn resolve(local: &DefaultAtom) -> (name: QualName)
        ensures
            name == resolved_name(*local),
    {
        QualName { ns: Namespace::placeholder(), local: clone_atom(local) }
    }

    /// A copy of this name.
    pub fn duplicate(&self) -> (copy: QualName)
        ensures
            copy == *self,
    {
        QualName { ns: Namespace(clone_atom(&self.ns.0)), local: clone_atom(&self.local) }
    }

    /// Whether two qualified names are equal: same namespace, same local
    /// name.
    pub fn same(&self, other: &QualName) -> (same: bool)
        ensures
            same == (*self == *other),
    {
        same_atom(&self.ns.0, &other.ns.0) && same_atom(&self.local, &other.local)
    }
}

} // verus!
