//! Collision resolution: consume collision-start notifications from the
//! physics broad-phase and despawn the object side of each (bullet, object)
//! pair. Bullets survive their collisions; stop and contact-force
//! notifications and pairs of any other kind produce no action.

use vstd::prelude::*;
use crate::entities::{Bullet, Object};

verus! {

/// A notification from the physics broad-phase, as a pair of entity
/// identifiers.
#[derive(Clone, Copy, PartialEq, Eq, Structural, Debug)]
pub enum CollisionEvent {
    Started(u64, u64),
    Stopped(u64, u64),
    ContactForce(u64, u64),
}

pub open spec fn has_bullet_id(bullets: Seq<Bullet>, id: u64) -> bool {
    exists|i: int| 0 <= i < bullets.len() && bullets[i].id == id
}

pub open spec fn has_object_id(objects: Seq<Object>, id: u64) -> bool {
    exists|i: int| 0 <= i < objects.len() && objects[i].id == id
}

/// The objects that survive the despawn of `id`, in their original order.
pub open spec fn without_object(objects: Seq<Object>, id: u64) -> Seq<Object> {
    objects.filter(|o: Object| o.id != id)
}

/// Effect of one notification on the object list: a start notification for
/// one bullet and one live object (in either order) despawns the object;
/// everything else is a no-op.
pub open spec fn apply_event(
    objects: Seq<Object>,
    bullets: Seq<Bullet>,
    e: CollisionEvent,
) -> Seq<Object> {
    match e {
        CollisionEvent::Started(a, b) => if has_bullet_id(bullets, a) && has_object_id(objects, b) {
            without_object(objects, b)
        } else if has_bullet_id(bullets, b) && has_object_id(objects, a) {
            without_object(objects, a)
        } else {
            objects
        },
        _ => objects,
    }
}

/// The object list after draining the notifications from index `i` on, in
/// order.
pub open spec fn resolve_from(
    objects: Seq<Object>,
    bullets: Seq<Bullet>,
    events: Seq<CollisionEvent>,
    i: int,
) -> Seq<Object>
    decreases events.len() - i,
{
    if i < 0 || i >= events.len() {
        objects
    } else {
        resolve_from(apply_event(objects, bullets, events[i]), bullets, events, i + 1)
    }
}

/// The object list after draining all notifications of one tick.
pub open spec fn resolved(
    objects: Seq<Object>,
    bullets: Seq<Bullet>,
    events: Seq<CollisionEvent>,
) -> Seq<Object> {
    resolve_from(objects, bullets, events, 0)
}

/// No two objects share an identifier.
pub open spec fn distinct_object_ids(s: Seq<Object>) -> bool {
    forall|i: int, j: int| 0 <= i < j < s.len() ==> s[i].id != s[j].id
}

fn has_bullet(bullets: &Vec<Bullet>, id: u64) -> (r: bool)
    ensures
        r == has_bullet_id(bullets@, id),
{
    let mut i: usize = 0;
    while i < bullets.len()
        invariant
            0 <= i <= bullets@.len(),
            forall|j: int| 0 <= j < i ==> bullets@[j].id != id,
        decreases bullets@.len() - i,
    {
        if bullets[i].id == id {
            assert(has_bullet_id(bullets@, id));
            return true;
        }
        i += 1;
    }
    false
}

fn has_object(objects: &Vec<Object>, id: u64) -> (r: bool)
    ensures
        r == has_object_id(objects@, id),
{
    let mut i: usize = 0;
    while i < objects.len()
        invariant
            0 <= i <= objects@.len(),
            forall|j: int| 0 <= j < i ==> objects@[j].id != id,
        decreases objects@.len() - i,
    {
        if objects[i].id == id {
            assert(has_object_id(objects@, id));
            return true;
        }
        i += 1;
    }
    false
}

/// Unfolding step of `without_object` over a push.
proof fn lemma_without_push(s: Seq<Object>, o: Object, id: u64)
    ensures
        without_object(s.push(o), id) == if o.id != id {
            without_object(s, id).push(o)
        } else {
            without_object(s, id)
        },
{
    reveal(Seq::<_>::filter);
    assert(s.push(o).drop_last() =~= s);
    assert(s.push(o).last() == o);
}

/// Despawn every object carrying `id` (exactly one, when identifiers are
/// distinct), keeping the others in order.
fn remove_object(objects: &mut Vec<Object>, id: u64)
    ensures
        final(objects)@ == without_object(old(objects)@, id),
{
    let ghost orig = objects@;
    let mut out: Vec<Object> = Vec::new();
    proof {
        reveal(Seq::<_>::filter);
        assert(orig.take(0) =~= Seq::<Object>::empty());
        assert(out@ =~= without_object(orig.take(0), id));
    }
    let mut i: usize = 0;
    while i < objects.len()
        invariant
            0 <= i <= objects@.len(),
            objects@ == orig,
            out@ == without_object(orig.take(i as int), id),
        decreases objects@.len() - i,
    {
        proof {
            assert(orig.take(i as int + 1) =~= orig.take(i as int).push(orig[i as int]));
            lemma_without_push(orig.take(i as int), orig[i as int], id);
        }
        if objects[i].id != id {
            out.push(objects[i]);
        }
        i += 1;
    }
    proof {
        assert(orig.take(orig.len() as int) =~= orig);
    }
    *objects = out;
}

/// Every survivor of a despawn was already present.
pub proof fn lemma_without_subset(s: Seq<Object>, id: u64)
    ensures
        forall|j: int|
            0 <= j < without_object(s, id).len() ==> s.contains(#[trigger] without_object(s, id)[j]),
    decreases s.len(),
{
    reveal(Seq::<_>::filter);
    if s.len() > 0 {
        lemma_without_subset(s.drop_last(), id);
        let sub = without_object(s.drop_last(), id);
        assert forall|j: int| 0 <= j < without_object(s, id).len() implies s.contains(
            #[trigger] without_object(s, id)[j],
        ) by {
            let x = without_object(s, id)[j];
            if j < sub.len() {
                assert(sub[j] == x);
                assert(s.drop_last().contains(x));
                let m = choose|m: int| 0 <= m < s.drop_last().len() && s.drop_last()[m] == x;
                assert(s[m] == x);
            } else {
                assert(x == s.last());
                assert(s[s.len() - 1] == x);
            }
        }
    }
}

/// What a despawn leaves: the named object is gone, every other object is
/// kept, nothing appears that was not there.
pub proof fn lemma_without_object_spec(s: Seq<Object>, id: u64)
    ensures
        !has_object_id(without_object(s, id), id),
        forall|j: int|
            0 <= j < s.len() && s[j].id != id ==> without_object(s, id).contains(#[trigger] s[j]),
        forall|j: int|
            0 <= j < without_object(s, id).len() ==> s.contains(#[trigger] without_object(s, id)[j])
                && without_object(s, id)[j].id != id,
{
    broadcast use vstd::seq_lib::group_filter_ensures;

    lemma_without_subset(s, id);
}

/// A despawn keeps identifiers distinct.
pub proof fn lemma_without_distinct(s: Seq<Object>, id: u64)
    requires
        distinct_object_ids(s),
    ensures
        distinct_object_ids(without_object(s, id)),
    decreases s.len(),
{
    reveal(Seq::<_>::filter);
    if s.len() > 0 {
        assert(distinct_object_ids(s.drop_last()));
        lemma_without_distinct(s.drop_last(), id);
        let sub = without_object(s.drop_last(), id);
        if s.last().id != id {
            lemma_without_subset(s.drop_last(), id);
            assert forall|k: int| 0 <= k < sub.len() implies sub[k].id != s.last().id by {
                let x = sub[k];
                assert(s.drop_last().contains(x));
                let m = choose|m: int| 0 <= m < s.drop_last().len() && s.drop_last()[m] == x;
                assert(s[m] == x);
                assert(s[m].id != s[s.len() - 1].id);
            }
            assert(without_object(s, id) == sub.push(s.last()));
            assert forall|i: int, j: int|
                0 <= i < j < sub.push(s.last()).len() implies sub.push(s.last())[i].id != sub.push(
                s.last(),
            )[j].id by {
                if j < sub.len() {
                } else {
                    assert(sub.push(s.last())[j] == s.last());
                    assert(sub.push(s.last())[i] == sub[i]);
                }
            }
        }
    }
}

/// A despawn of a present object removes exactly one entry; of an absent
/// identifier, none.
pub proof fn lemma_without_len(s: Seq<Object>, id: u64)
    requires
        distinct_object_ids(s),
    ensures
        without_object(s, id).len() == if has_object_id(s, id) {
            s.len() - 1
        } else {
            s.len() as int
        },
    decreases s.len(),
{
    reveal(Seq::<_>::filter);
    if s.len() == 0 {
        assert(!has_object_id(s, id));
    } else {
        let sp = s.drop_last();
        assert(distinct_object_ids(sp));
        lemma_without_len(sp, id);
        if s.last().id == id {
            assert(has_object_id(s, id)) by {
                assert(s[s.len() - 1].id == id);
            }
            assert(!has_object_id(sp, id)) by {
                if has_object_id(sp, id) {
                    let m = choose|m: int| 0 <= m < sp.len() && sp[m].id == id;
                    assert(s[m] == sp[m]);
                    assert(s[m].id != s[s.len() - 1].id);
                }
            }
        } else {
            if has_object_id(s, id) {
                let m = choose|m: int| 0 <= m < s.len() && s[m].id == id;
                assert(m < s.len() - 1);
                assert(sp[m] == s[m]);
                assert(has_object_id(sp, id));
            }
            if has_object_id(sp, id) {
                let m = choose|m: int| 0 <= m < sp.len() && sp[m].id == id;
                assert(s[m] == sp[m]);
                assert(has_object_id(s, id));
            }
        }
    }
}

/// Draining notifications only ever despawns: identifiers stay distinct and
/// every survivor was present before.
pub proof fn lemma_resolve_from_preserves(
    objects: Seq<Object>,
    bullets: Seq<Bullet>,
    events: Seq<CollisionEvent>,
    i: int,
)
    requires
        distinct_object_ids(objects),
    ensures
        distinct_object_ids(resolve_from(objects, bullets, events, i)),
        forall|j: int|
            0 <= j < resolve_from(objects, bullets, events, i).len() ==> objects.contains(
                #[trigger] resolve_from(objects, bullets, events, i)[j],
            ),
    decreases events.len() - i,
{
    if i < 0 || i >= events.len() {
        assert forall|j: int|
            0 <= j < resolve_from(objects, bullets, events, i).len() implies objects.contains(
            #[trigger] resolve_from(objects, bullets, events, i)[j],
        ) by {
            assert(resolve_from(objects, bullets, events, i)[j] == objects[j]);
        }
    } else {
        let mid = apply_event(objects, bullets, events[i]);
        lemma_apply_event_preserves(objects, bullets, events[i]);
        lemma_resolve_from_preserves(mid, bullets, events, i + 1);
        let out = resolve_from(objects, bullets, events, i);
        assert(out == resolve_from(mid, bullets, events, i + 1));
        assert forall|j: int| 0 <= j < out.len() implies objects.contains(#[trigger] out[j]) by {
            assert(mid.contains(out[j]));
            let m = choose|m: int| 0 <= m < mid.len() && mid[m] == out[j];
            assert(objects.contains(mid[m]));
        }
    }
}

/// One notification only ever despawns: identifiers stay distinct and every
/// survivor was present before.
proof fn lemma_apply_event_preserves(objects: Seq<Object>, bullets: Seq<Bullet>, e: CollisionEvent)
    requires
        distinct_object_ids(objects),
    ensures
        distinct_object_ids(apply_event(objects, bullets, e)),
        forall|j: int|
            0 <= j < apply_event(objects, bullets, e).len() ==> objects.contains(
                #[trigger] apply_event(objects, bullets, e)[j],
            ),
{
    let mid = apply_event(objects, bullets, e);
    match e {
        CollisionEvent::Started(a, b) => {
            if has_bullet_id(bullets, a) && has_object_id(objects, b) {
                lemma_without_distinct(objects, b);
                lemma_without_subset(objects, b);
                assert(mid == without_object(objects, b));
                assert forall|j: int| 0 <= j < mid.len() implies objects.contains(
                    #[trigger] mid[j],
                ) by {
                    assert(mid[j] == without_object(objects, b)[j]);
                }
            } else if has_bullet_id(bullets, b) && has_object_id(objects, a) {
                lemma_without_distinct(objects, a);
                lemma_without_subset(objects, a);
                assert(mid == without_object(objects, a));
                assert forall|j: int| 0 <= j < mid.len() implies objects.contains(
                    #[trigger] mid[j],
                ) by {
                    assert(mid[j] == without_object(objects, a)[j]);
                }
            } else {
                assert(mid == objects);
                assert forall|j: int| 0 <= j < mid.len() implies objects.contains(
                    #[trigger] mid[j],
                ) by {
                    assert(mid[j] == objects[j]);
                }
            }
        },
        _ => {
            assert(mid == objects);
            assert forall|j: int| 0 <= j < mid.len() implies objects.contains(
                #[trigger] mid[j],
            ) by {
                assert(mid[j] == objects[j]);
            }
        },
    }
}

/// Drain one tick's notifications in order, despawning the object side of
/// each (bullet, object) start pair. The bullet list is only read: a bullet
/// always survives its collisions.
pub fn resolve_collisions(
    bullets: &Vec<Bullet>,
    objects: &mut Vec<Object>,
    events: &Vec<CollisionEvent>,
)
    ensures
        final(objects)@ == resolved(old(objects)@, bullets@, events@),
{
    let ghost orig = objects@;
    let mut i: usize = 0;
    while i < events.len()
        invariant
            0 <= i <= events@.len(),
            resolved(orig, bullets@, events@) == resolve_from(objects@, bullets@, events@, i as int),
        decreases events@.len() - i,
    {
        let ghost prev = objects@;
        let e = events[i];
        match e {
            CollisionEvent::Started(a, b) => {
                if has_bullet(bullets, a) && has_object(objects, b) {
                    remove_object(objects, b);
                } else if has_bullet(bullets, b) && has_object(objects, a) {
                    remove_object(objects, a);
                }
            },
            _ => {},
        }
        proof {
            assert(objects@ == apply_event(prev, bullets@, events@[i as int]));
            assert(resolve_from(prev, bullets@, events@, i as int) == resolve_from(
                apply_event(prev, bullets@, events@[i as int]),
                bullets@,
                events@,
                i as int + 1,
            ));
        }
        i += 1;
    }
}

/// A collision-start notification for a (bullet, object) pair despawns
/// exactly that object: it is gone afterwards, every other object survives,
/// none appears, and exactly one entry is removed. Bullets are never
/// despawned by resolution at all: the object list is the only state it
/// touches.
pub proof fn lemma_bullet_object_collision(
    objects: Seq<Object>,
    bullets: Seq<Bullet>,
    bullet_id: u64,
    object_id: u64,
)
    requires
        distinct_object_ids(objects),
        has_bullet_id(bullets, bullet_id),
        has_object_id(objects, object_id),
    ensures
        ({
            let out = resolved(
                objects,
                bullets,
                seq![CollisionEvent::Started(bullet_id, object_id)],
            );
            &&& !has_object_id(out, object_id)
            &&& forall|j: int|
                0 <= j < objects.len() && objects[j].id != object_id ==> out.contains(
                    #[trigger] objects[j],
                )
            &&& forall|j: int| 0 <= j < out.len() ==> objects.contains(#[trigger] out[j])
            &&& out.len() == objects.len() - 1
        }),
{
    let evs = seq![CollisionEvent::Started(bullet_id, object_id)];
    let out = resolved(objects, bullets, evs);
    assert(apply_event(objects, bullets, evs[0]) == without_object(objects, object_id));
    assert(out == resolve_from(without_object(objects, object_id), bullets, evs, 1));
    assert(out == without_object(objects, object_id));
    lemma_without_object_spec(objects, object_id);
    lemma_without_len(objects, object_id);
}

} // verus!
