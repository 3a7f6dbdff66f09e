//! The query mechanism's mathematical model: for each requested field set, a
//! spec function gives the exact sequence of tuples a query yields — one
//! tuple per live identifier, in spawn order, keeping only the entities that
//! hold every requested field — together with the laws the queries obey.

use vstd::prelude::*;
use crate::component::{Component, Name, Position};
use crate::identifier::Identifier;

verus! {

/// `id` names an entity in `table` whose position field is present.
pub open spec fn has_position(table: Map<Identifier, Component>, id: Identifier) -> bool {
    table.contains_key(id) && table[id].position is Some
}

/// `id` names an entity in `table` whose name field is present.
pub open spec fn has_name(table: Map<Identifier, Component>, id: Identifier) -> bool {
    table.contains_key(id) && table[id].name is Some
}

/// `id` names an entity in `table` holding both a position and a name.
pub open spec fn has_position_and_name(table: Map<Identifier, Component>, id: Identifier) -> bool {
    has_position(table, id) && has_name(table, id)
}

/// What a position query yields: one `(identifier, position)` tuple per
/// identifier of `ids` whose entity holds a position, in the order of `ids`.
pub open spec fn position_matches(ids: Seq<Identifier>, table: Map<Identifier, Component>) -> Seq<
    (Identifier, Position),
>
    decreases ids.len(),
{
    if ids.len() == 0 {
        Seq::empty()
    } else {
        let prefix = position_matches(ids.drop_last(), table);
        if has_position(table, ids.last()) {
            prefix.push((ids.last(), table[ids.last()].position->0))
        } else {
            prefix
        }
    }
}

/// What a name query yields: one `(identifier, name)` tuple per identifier
/// of `ids` whose entity holds a name, in the order of `ids`.
pub open spec fn name_matches(ids: Seq<Identifier>, table: Map<Identifier, Component>) -> Seq<
    (Identifier, Name),
>
    decreases ids.len(),
{
    if ids.len() == 0 {
        Seq::empty()
    } else {
        let prefix = name_matches(ids.drop_last(), table);
        if has_name(table, ids.last()) {
            prefix.push((ids.last(), table[ids.last()].name->0))
        } else {
            prefix
        }
    }
}

/// What a position-and-name query yields: one `(identifier, position, name)`
/// tuple per identifier of `ids` whose entity holds both fields, in the
/// order of `ids`. An entity missing either field is skipped entirely.
pub open spec fn position_name_matches(ids: Seq<Identifier>, table: Map<Identifier, Component>) -> Seq<
    (Identifier, Position, Name),
>
    decreases ids.len(),
{
    if ids.len() == 0 {
        Seq::empty()
    } else {
        let prefix = position_name_matches(ids.drop_last(), table);
        if has_position_and_name(table, ids.last()) {
            prefix.push((ids.last(), table[ids.last()].position->0, table[ids.last()].name->0))
        } else {
            prefix
        }
    }
}

/// `t` is a tuple a position query may yield against `ids` and `table`: its
/// identifier is live, holds a position, and the tuple carries that value.
pub open spec fn position_tuple_ok(
    ids: Seq<Identifier>,
    table: Map<Identifier, Component>,
    t: (Identifier, Position),
) -> bool {
    ids.contains(t.0) && has_position(table, t.0) && t.1 == table[t.0].position->0
}

/// `t` is a tuple a name query may yield against `ids` and `table`.
pub open spec fn name_tuple_ok(
    ids: Seq<Identifier>,
    table: Map<Identifier, Component>,
    t: (Identifier, Name),
) -> bool {
    ids.contains(t.0) && has_name(table, t.0) && t.1 == table[t.0].name->0
}

/// `t` is a tuple a position-and-name query may yield against `ids` and
/// `table`: its identifier is live, holds both fields, and the tuple carries
/// exactly the stored values.
pub open spec fn position_name_tuple_ok(
    ids: Seq<Identifier>,
    table: Map<Identifier, Component>,
    t: (Identifier, Position, Name),
) -> bool {
    &&& ids.contains(t.0)
    &&& has_position_and_name(table, t.0)
    &&& t.1 == table[t.0].position->0
    &&& t.2 == table[t.0].name->0
}

proof fn lemma_drop_last_contains(ids: Seq<Identifier>, k: Identifier)
    requires
        ids.len() > 0,
        ids.drop_last().contains(k),
    ensures
        ids.contains(k),
{
    let j = choose|j: int| 0 <= j < ids.drop_last().len() && ids.drop_last()[j] == k;
    assert(ids[j] == k);
}

/// Law: every tuple a position query yields names a live entity that holds a
/// position, and carries exactly the value stored for it — no corruption.
pub proof fn lemma_position_matches_sound(ids: Seq<Identifier>, table: Map<Identifier, Component>)
    ensures
        forall|j: int|
            0 <= j < position_matches(ids, table).len() ==> position_tuple_ok(
                ids,
                table,
                #[trigger] position_matches(ids, table)[j],
            ),
    decreases ids.len(),
{
    if ids.len() > 0 {
        let out = position_matches(ids, table);
        let prefix = position_matches(ids.drop_last(), table);
        lemma_position_matches_sound(ids.drop_last(), table);
        assert(ids[ids.len() - 1] == ids.last());
        assert forall|j: int| 0 <= j < out.len() implies position_tuple_ok(
            ids,
            table,
            #[trigger] out[j],
        ) by {
            if j < prefix.len() {
                assert(out[j] == prefix[j]);
                lemma_drop_last_contains(ids, prefix[j].0);
            }
        }
    }
}

/// Law: every tuple a name query yields names a live entity that holds a
/// name, and carries exactly the value stored for it.
pub proof fn lemma_name_matches_sound(ids: Seq<Identifier>, table: Map<Identifier, Component>)
    ensures
        forall|j: int|
            0 <= j < name_matches(ids, table).len() ==> name_tuple_ok(
                ids,
                table,
                #[trigger] name_matches(ids, table)[j],
            ),
    decreases ids.len(),
{
    if ids.len() > 0 {
        let out = name_matches(ids, table);
        let prefix = name_matches(ids.drop_last(), table);
        lemma_name_matches_sound(ids.drop_last(), table);
        assert(ids[ids.len() - 1] == ids.last());
        assert forall|j: int| 0 <= j < out.len() implies name_tuple_ok(
            ids,
            table,
            #[trigger] out[j],
        ) by {
            if j < prefix.len() {
                assert(out[j] == prefix[j]);
                lemma_drop_last_contains(ids, prefix[j].0);
            }
        }
    }
}

/// Law: every tuple a position-and-name query yields names a live entity
/// that holds both fields, and carries exactly the stored values.
pub proof fn lemma_position_name_matches_sound(
    ids: Seq<Identifier>,
    table: Map<Identifier, Component>,
)
    ensures
        forall|j: int|
            0 <= j < position_name_matches(ids, table).len() ==> position_name_tuple_ok(
                ids,
                table,
                #[trigger] position_name_matches(ids, table)[j],
            ),
    decreases ids.len(),
{
    if ids.len() > 0 {
        let out = position_name_matches(ids, table);
        let prefix = position_name_matches(ids.drop_last(), table);
        lemma_position_name_matches_sound(ids.drop_last(), table);
        assert(ids[ids.len() - 1] == ids.last());
        assert forall|j: int| 0 <= j < out.len() implies position_name_tuple_ok(
            ids,
            table,
            #[trigger] out[j],
        ) by {
            if j < prefix.len() {
                assert(out[j] == prefix[j]);
                lemma_drop_last_contains(ids, prefix[j].0);
            }
        }
    }
}

/// Law: an entity missing the position field never appears in a position
/// query's output — exclusion is absolute, not partial.
pub proof fn lemma_missing_position_excluded(
    ids: Seq<Identifier>,
    table: Map<Identifier, Component>,
    id: Identifier,
)
    requires
        !has_position(table, id),
    ensures
        forall|j: int|
            0 <= j < position_matches(ids, table).len() ==> (#[trigger] position_matches(
                ids,
                table,
            )[j]).0 != id,
{
    lemma_position_matches_sound(ids, table);
}

/// Law: an entity missing the name field never appears in a name query's
/// output.
pub proof fn lemma_missing_name_excluded(
    ids: Seq<Identifier>,
    table: Map<Identifier, Component>,
    id: Identifier,
)
    requires
        !has_name(table, id),
    ensures
        forall|j: int|
            0 <= j < name_matches(ids, table).len() ==> (#[trigger] name_matches(ids, table)[j]).0
                != id,
{
    lemma_name_matches_sound(ids, table);
}

/// Law: an entity missing either requested field never appears in the
/// two-field query's output — matching is all-or-nothing.
pub proof fn lemma_missing_field_excluded_pair(
    ids: Seq<Identifier>,
    table: Map<Identifier, Component>,
    id: Identifier,
)
    requires
        !has_position_and_name(table, id),
    ensures
        forall|j: int|
            0 <= j < position_name_matches(ids, table).len() ==> (#[trigger] position_name_matches(
                ids,
                table,
            )[j]).0 != id,
{
    lemma_position_name_matches_sound(ids, table);
}

/// Law: a freshly spawned entity holding a position is immediately
/// retrievable: after appending `id` with bundle `c` to a world, a position
/// query yields `(id, value)` as its last tuple.
pub proof fn lemma_spawned_position_visible(
    ids: Seq<Identifier>,
    table: Map<Identifier, Component>,
    id: Identifier,
    c: Component,
)
    requires
        c.position is Some,
    ensures
        ({
            let out = position_matches(ids.push(id), table.insert(id, c));
            &&& out.len() > 0
            &&& out.last() == (id, c.position->0)
            &&& out.contains((id, c.position->0))
        }),
{
    assert(ids.push(id).drop_last() =~= ids);
    let out = position_matches(ids.push(id), table.insert(id, c));
    assert(out[out.len() - 1] == (id, c.position->0));
}

/// Law: a freshly spawned entity holding a name is immediately retrievable
/// through a name query, as the query's last tuple.
pub proof fn lemma_spawned_name_visible(
    ids: Seq<Identifier>,
    table: Map<Identifier, Component>,
    id: Identifier,
    c: Component,
)
    requires
        c.name is Some,
    ensures
        ({
            let out = name_matches(ids.push(id), table.insert(id, c));
            &&& out.len() > 0
            &&& out.last() == (id, c.name->0)
            &&& out.contains((id, c.name->0))
        }),
{
    assert(ids.push(id).drop_last() =~= ids);
    let out = name_matches(ids.push(id), table.insert(id, c));
    assert(out[out.len() - 1] == (id, c.name->0));
}

/// Law: position query output order equals spawn order — the identifiers it
/// yields are exactly the live identifiers holding a position, kept in
/// sequence order, with no reordering and no duplication.
pub proof fn lemma_position_query_order(ids: Seq<Identifier>, table: Map<Identifier, Component>)
    ensures
        position_matches(ids, table).map_values(|t: (Identifier, Position)| t.0) == ids.filter(
            |k: Identifier| has_position(table, k),
        ),
    decreases ids.len(),
{
    reveal(Seq::filter);
    let f = |t: (Identifier, Position)| t.0;
    let pred = |k: Identifier| has_position(table, k);
    if ids.len() == 0 {
        assert(position_matches(ids, table).map_values(f) =~= ids.filter(pred));
    } else {
        lemma_position_query_order(ids.drop_last(), table);
        let prefix = position_matches(ids.drop_last(), table);
        if has_position(table, ids.last()) {
            assert(position_matches(ids, table).map_values(f) =~= prefix.map_values(f).push(
                ids.last(),
            ));
        } else {
            assert(position_matches(ids, table).map_values(f) =~= prefix.map_values(f));
        }
    }
}

/// Law: name query output order equals spawn order.
pub proof fn lemma_name_query_order(ids: Seq<Identifier>, table: Map<Identifier, Component>)
    ensures
        name_matches(ids, table).map_values(|t: (Identifier, Name)| t.0) == ids.filter(
            |k: Identifier| has_name(table, k),
        ),
    decreases ids.len(),
{
    reveal(Seq::filter);
    let f = |t: (Identifier, Name)| t.0;
    let pred = |k: Identifier| has_name(table, k);
    if ids.len() == 0 {
        assert(name_matches(ids, table).map_values(f) =~= ids.filter(pred));
    } else {
        lemma_name_query_order(ids.drop_last(), table);
        let prefix = name_matches(ids.drop_last(), table);
        if has_name(table, ids.last()) {
            assert(name_matches(ids, table).map_values(f) =~= prefix.map_values(f).push(
                ids.last(),
            ));
        } else {
            assert(name_matches(ids, table).map_values(f) =~= prefix.map_values(f));
        }
    }
}

/// Law: two-field query output order equals spawn order — whichever fields a
/// query requests, the yielded identifiers follow the live sequence.
pub proof fn lemma_pair_query_order(ids: Seq<Identifier>, table: Map<Identifier, Component>)
    ensures
        position_name_matches(ids, table).map_values(|t: (Identifier, Position, Name)| t.0)
            == ids.filter(|k: Identifier| has_position_and_name(table, k)),
    decreases ids.len(),
{
    reveal(Seq::filter);
    let f = |t: (Identifier, Position, Name)| t.0;
    let pred = |k: Identifier| has_position_and_name(table, k);
    if ids.len() == 0 {
        assert(position_name_matches(ids, table).map_values(f) =~= ids.filter(pred));
    } else {
        lemma_pair_query_order(ids.drop_last(), table);
        let prefix = position_name_matches(ids.drop_last(), table);
        if has_position_and_name(table, ids.last()) {
            assert(position_name_matches(ids, table).map_values(f) =~= prefix.map_values(f).push(
                ids.last(),
            ));
        } else {
            assert(position_name_matches(ids, table).map_values(f) =~= prefix.map_values(f));
        }
    }
}

/// Law: an entity holding every requested field appears exactly once in the
/// two-field query's output — at one index, carrying exactly the stored
/// values, and at no other index — provided its identifier occurs exactly
/// once in the live sequence (which spawning guarantees up to identifier
/// collision, a non-goal to defend against).
pub proof fn lemma_pair_match_appears_once(
    ids: Seq<Identifier>,
    table: Map<Identifier, Component>,
    id: Identifier,
    k: int,
)
    requires
        has_position_and_name(table, id),
        0 <= k < ids.len(),
        ids[k] == id,
        forall|j: int| 0 <= j < ids.len() && j != k ==> ids[j] != id,
    ensures
        ({
            let out = position_name_matches(ids, table);
            exists|m: int|
                0 <= m < out.len() && out[m] == (id, table[id].position->0, table[id].name->0) && (
                forall|j: int| 0 <= j < out.len() && j != m ==> (#[trigger] out[j]).0 != id)
        }),
    decreases ids.len(),
{
    let out = position_name_matches(ids, table);
    let prefix = position_name_matches(ids.drop_last(), table);
    if k == ids.len() - 1 {
        // The match is the last live identifier; no earlier identifier is
        // `id`, so no prefix tuple can name it.
        assert(!ids.drop_last().contains(id)) by {
            if ids.drop_last().contains(id) {
                let j = choose|j: int|
                    0 <= j < ids.drop_last().len() && ids.drop_last()[j] == id;
                assert(ids[j] == id);
            }
        }
        lemma_position_name_matches_sound(ids.drop_last(), table);
        assert(ids.last() == id);
        let m = out.len() - 1;
        assert(out[m] == (id, table[id].position->0, table[id].name->0));
        assert forall|j: int| 0 <= j < out.len() && j != m implies (#[trigger] out[j]).0 != id by {
            assert(out[j] == prefix[j]);
            assert(position_name_tuple_ok(ids.drop_last(), table, prefix[j]));
        }
    } else {
        // The match sits strictly before the last identifier: recurse on the
        // prefix and carry its witness index through.
        assert(ids.drop_last()[k] == id);
        lemma_pair_match_appears_once(ids.drop_last(), table, id, k);
        let m = choose|m: int|
            0 <= m < prefix.len() && prefix[m] == (id, table[id].position->0, table[id].name->0)
                && (forall|j: int| 0 <= j < prefix.len() && j != m ==> (#[trigger] prefix[j]).0
                != id);
        assert(ids.last() != id);
        assert(out[m] == prefix[m]);
        assert forall|j: int| 0 <= j < out.len() && j != m implies (#[trigger] out[j]).0 != id by {
            if j < prefix.len() {
                assert(out[j] == prefix[j]);
            } else {
                assert(out[j] == (ids.last(), table[ids.last()].position->0,
                table[ids.last()].name->0));
            }
        }
    }
}

/// Law: each query is a pure function of the world's state, so invoking the
/// same query twice against an unmodified world yields identical sequences.
/// Every query's contract pins its result to one spec-level sequence; two
/// results pinned to the same sequence are the same sequence.
pub proof fn lemma_query_idempotent(
    p1: Seq<(Identifier, Position)>,
    p2: Seq<(Identifier, Position)>,
    n1: Seq<(Identifier, Name)>,
    n2: Seq<(Identifier, Name)>,
    b1: Seq<(Identifier, Position, Name)>,
    b2: Seq<(Identifier, Position, Name)>,
    ids: Seq<Identifier>,
    table: Map<Identifier, Component>,
)
    requires
        p1 == position_matches(ids, table),
        p2 == position_matches(ids, table),
        n1 == name_matches(ids, table),
        n2 == name_matches(ids, table),
        b1 == position_name_matches(ids, table),
        b2 == position_name_matches(ids, table),
    ensures
        p1 == p2,
        n1 == n2,
        b1 == b2,
{
}

} // verus!
