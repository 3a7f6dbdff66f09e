//! The demonstration component types and the per-entity bundle with its
//! builder: every field of a bundle is independently present or absent.

use vstd::prelude::*;

verus! {

/// A two-dimensional position component.
#[derive(Clone, Copy, Debug, PartialEq, Eq, Structural)]
pub struct Position(pub i32, pub i32);

/// A textual name component.
#[derive(Debug, PartialEq, Eq)]
pub struct Name(pub String);

impl Clone for Name {
    /// Cloning a name yields a value equal to the original.
    fn clone(&self) -> (r: Self)
        ensures
            r == *self,
    {
        Name(self.0.clone())
    }
}

/// The per-entity record: one slot per component kind, each independently
/// present or absent. Absence of a field means "the entity does not have
/// this component".
#[derive(Debug, PartialEq, Eq)]
pub struct Component {
    pub name: Option<Name>,
    pub position: Option<Position>,
}

/// The bundle with every field absent.
pub open spec fn empty_bundle() -> Component {
    Component { name: None, position: None }
}

/// `c` with its position field set to `p`; every other field is unchanged.
pub open spec fn bundle_with_position(c: Component, p: Position) -> Component {
    Component { name: c.name, position: Some(p) }
}

/// `c` with its name field set to `n`; every other field is unchanged.
pub open spec fn bundle_with_name(c: Component, n: Name) -> Component {
    Component { name: Some(n), position: c.position }
}

impl Component {
    /// A bundle with every field absent.
    pub fn new() -> (r: Self)
        ensures
            r == empty_bundle(),
    {
        Component { name: None, position: None }
    }

    /// Consumes the bundle and returns it with the position field present,
    /// holding `position`; all other fields are carried over unchanged.
    /// A second call overwrites the earlier position: last write wins.
    pub fn with_position(self, position: Position) -> (r: Self)
        ensures
            r == bundle_with_position(self, position),
    {
        Component { position: Some(position), ..self }
    }

    /// Consumes the bundle and returns it with the name field present,
    /// holding `name`; all other fields are carried over unchanged.
    /// A second call overwrites the earlier name: last write wins.
    pub fn with_name(self, name: Name) -> (r: Self)
        ensures
            r == bundle_with_name(self, name),
    {
        Component { name: Some(name), ..self }
    }
}

/// Law: the field set of a bundle does not depend on the order in which the
/// builder calls are applied — setting the position and then the name yields
/// the same bundle as the two calls in the other order.
pub proof fn lemma_builder_order_independent(p: Position, n: Name)
    ensures
        bundle_with_name(bundle_with_position(empty_bundle(), p), n) == bundle_with_position(
            bundle_with_name(empty_bundle(), n),
            p,
        ),
{
}

/// Law: setting the position twice keeps only the last value.
pub proof fn lemma_builder_last_position_wins(c: Component, p1: Position, p2: Position)
    ensures
        bundle_with_position(bundle_with_position(c, p1), p2) == bundle_with_position(c, p2),
{
}

/// Law: setting the name twice keeps only the last value.
pub proof fn lemma_builder_last_name_wins(c: Component, n1: Name, n2: Name)
    ensures
        bundle_with_name(bundle_with_name(c, n1), n2) == bundle_with_name(c, n2),
{
}

} // verus!
