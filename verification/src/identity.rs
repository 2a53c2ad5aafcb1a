//! Identities: how actors are told apart, and how an actor is found again
//! by the identity it carries.

use vstd::prelude::*;
use crate::actors::{Bullet, Enemy, Gold};
use crate::geometry::Point;

verus! {

/// An actor that carries an identity. Identities are handed out in rising
/// order and never reused, so a handle that outlives its actor can never be
/// mistaken for another actor of the same kind.
pub trait Tagged {
    /// The identity of this actor.
    spec fn tag(&self) -> u64;

    /// Where this actor stands.
    spec fn spot(&self) -> Point;

    /// The identity of this actor.
    fn id(&self) -> (id: u64)
        ensures
            id == self.tag(),
    ;

    /// Where this actor stands.
    fn place(&self) -> (pos: Point)
        ensures
            pos == self.spot(),
    ;
}

impl Tagged for Enemy {
    open spec fn tag(&self) -> u64 {
        self.id
    }

    open spec fn spot(&self) -> Point {
        self.pos
    }

    fn id(&self) -> (id: u64) {
        self.id
    }

    fn place(&self) -> (pos: Point) {
        self.pos
    }
}

impl Tagged for Bullet {
    open spec fn tag(&self) -> u64 {
        self.id
    }

    open spec fn spot(&self) -> Point {
        self.pos
    }

    fn id(&self) -> (id: u64) {
        self.id
    }

    fn place(&self) -> (pos: Point) {
        self.pos
    }
}

impl Tagged for Gold {
    open spec fn tag(&self) -> u64 {
        self.id
    }

    open spec fn spot(&self) -> Point {
        self.pos
    }

    fn id(&self) -> (id: u64) {
        self.id
    }

    fn place(&self) -> (pos: Point) {
        self.pos
    }
}

/// The identities of `items`, in order.
pub open spec fn tags<T: Tagged>(items: Seq<T>) -> Seq<u64> {
    items.map_values(|t: T| t.tag())
}

/// `i` is the first place at which `ids` holds `id`.
pub open spec fn first_at(ids: Seq<u64>, id: u64, i: int) -> bool {
    &&& 0 <= i < ids.len()
    &&& ids[i] == id
    &&& forall|j: int| 0 <= j < i ==> ids[j] != id
}

/// The first place at which `ids` holds `id`, if there is one.
pub open spec fn position(ids: Seq<u64>, id: u64) -> Option<int> {
    if exists|i: int| first_at(ids, id, i) {
        Some(choose|i: int| first_at(ids, id, i))
    } else {
        None
    }
}

/// The first place that holds an identity is its position.
pub proof fn lemma_position_found(ids: Seq<u64>, id: u64, i: int)
    requires
        first_at(ids, id, i),
    ensures
        position(ids, id) == Some(i),
{
    // Of two first places, neither can come before the other.
    let k = choose|k: int| first_at(ids, id, k);
    assert(!(k < i) && !(i < k));
}

/// Finds the first of `items` that carries the identity `id`.
pub fn find<T: Tagged>(items: &Vec<T>, id: u64) -> (found: Option<usize>)
    ensures
        match found {
            Some(i) => position(tags(items@), id) == Some(i as int),
            None => position(tags(items@), id) is None,
        },
        found is Some <==> tags(items@).contains(id),
{
    let mut i: usize = 0;
    while i < items.len()
        invariant
            i <= items.len(),
            forall|j: int| 0 <= j < i ==> tags(items@)[j] != id,
        decreases items.len() - i,
    {
        if items[i].id() == id {
            proof {
                lemma_position_found(tags(items@), id, i as int);
            }
            return Some(i);
        }
        i += 1;
    }
    None
}

/// Every identity in `ids` is below `bound`.
pub open spec fn all_below(ids: Seq<u64>, bound: u64) -> bool {
    forall|i: int| 0 <= i < ids.len() ==> ids[i] < bound
}

/// No identity occurs in both `a` and `b`.
pub open spec fn disjoint(a: Seq<u64>, b: Seq<u64>) -> bool {
    forall|i: int, j: int| 0 <= i < a.len() && 0 <= j < b.len() ==> a[i] != b[j]
}

/// Pushing an actor with an unused identity keeps identities unique and
/// below the next bound.
pub proof fn lemma_push_fresh<T: Tagged>(items: Seq<T>, item: T, id: u64)
    requires
        tags(items).no_duplicates(),
        all_below(tags(items), id),
        item.tag() == id,
        id < u64::MAX,
    ensures
        tags(items.push(item)) == tags(items).push(id),
        tags(items.push(item)).no_duplicates(),
        all_below(tags(items.push(item)), (id + 1) as u64),
{
    assert(tags(items.push(item)) =~= tags(items).push(id));
}

/// Removing an actor keeps identities unique and bounded.
pub proof fn lemma_remove_keeps_order<T: Tagged>(items: Seq<T>, i: int, bound: u64)
    requires
        0 <= i < items.len(),
        tags(items).no_duplicates(),
        all_below(tags(items), bound),
    ensures
        tags(items.remove(i)) == tags(items).remove(i),
        tags(items.remove(i)).no_duplicates(),
        all_below(tags(items.remove(i)), bound),
{
    assert(tags(items.remove(i)) =~= tags(items).remove(i));
}

} // verus!
