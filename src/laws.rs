use vstd::prelude::*;

use crate::keyed::{has_key, keys_unique, lemma_put, lemma_without, position_of};
use crate::pose::{identity_quaternion, origin, ObjectPose};
use crate::replica::{
    anchor_of, cloud_live_at, deleted, entry_of, expired, node_change, object_key, object_live_at,
    upserted, NodeChange, PointCloudContainer, VisualizerObject,
};

verus! {

/// Restating an object is idempotent: stating the same object at `t1` and
/// again at `t2` leaves the table that stating it once at `t2` leaves. Only
/// the time of the last refresh moves; every content field stays, and the
/// second statement keeps the resource in place.
pub proof fn lemma_restating_is_idempotent(s: Seq<VisualizerObject>, o: ObjectPose, t1: u64, t2: u64)
    requires
        keys_unique(s, object_key()),
    ensures
        upserted(upserted(s, o, t1), o, t2) == upserted(s, o, t2),
        upserted(upserted(s, o, t1), o, t1) == upserted(s, o, t1),
        node_change(upserted(s, o, t1), o) == NodeChange::Keep,
{
    let once = upserted(s, o, t1);
    lemma_put(s, object_key(), o.id@, entry_of(o, t1));
    lemma_put(once, object_key(), o.id@, entry_of(o, t2));
    let i = position_of(s, object_key(), o.id@);
    if i >= 0 {
        assert(upserted(once, o, t2) =~= upserted(s, o, t2));
    } else {
        assert(upserted(once, o, t2) =~= upserted(s, o, t2));
    }
    lemma_put(once, object_key(), o.id@, entry_of(o, t1));
    if i >= 0 {
        assert(upserted(once, o, t1) =~= once);
    } else {
        assert(upserted(once, o, t1) =~= once);
    }
}

/// A sweep at `now` keeps exactly the entries whose lease still runs: an
/// entry is in the swept table if and only if it was in the table and has
/// not timed out. The entries kept are kept as they were.
pub proof fn lemma_sweep_removes_exactly_expired(
    objects: Seq<VisualizerObject>,
    clouds: Seq<PointCloudContainer>,
    now: u64,
)
    ensures
        forall|e: VisualizerObject|
            #[trigger] objects.filter(object_live_at(now)).contains(e) <==> (objects.contains(e)
                && !e.timed_out(now)),
        forall|c: PointCloudContainer|
            #[trigger] clouds.filter(cloud_live_at(now)).contains(c) <==> (clouds.contains(c)
                && !c.timed_out(now)),
{
    assert forall|e: VisualizerObject|
        #[trigger] objects.filter(object_live_at(now)).contains(e) <==> (objects.contains(e)
            && !e.timed_out(now)) by {
        let f = objects.filter(object_live_at(now));
        if f.contains(e) {
            objects.lemma_filter_contains_rev(object_live_at(now), e);
            let k = choose|k: int| 0 <= k < f.len() && f[k] == e;
            objects.lemma_filter_pred(object_live_at(now), k);
        }
        if objects.contains(e) && !e.timed_out(now) {
            let k = choose|k: int| 0 <= k < objects.len() && objects[k] == e;
            objects.lemma_filter_contains(object_live_at(now), k);
        }
    }
    assert forall|c: PointCloudContainer|
        #[trigger] clouds.filter(cloud_live_at(now)).contains(c) <==> (clouds.contains(c)
            && !c.timed_out(now)) by {
        let f = clouds.filter(cloud_live_at(now));
        if f.contains(c) {
            clouds.lemma_filter_contains_rev(cloud_live_at(now), c);
            let k = choose|k: int| 0 <= k < f.len() && f[k] == c;
            clouds.lemma_filter_pred(cloud_live_at(now), k);
        }
        if clouds.contains(c) && !c.timed_out(now) {
            let k = choose|k: int| 0 <= k < clouds.len() && clouds[k] == c;
            clouds.lemma_filter_contains(cloud_live_at(now), k);
        }
    }
}

/// A deletion takes effect at once: after the object `id` is deleted no
/// entry has that id, whatever remained of its lease.
pub proof fn lemma_delete_is_immediate(s: Seq<VisualizerObject>, id: Seq<char>)
    requires
        keys_unique(s, object_key()),
    ensures
        !has_key(deleted(s, id), object_key(), id),
        forall|i: int| 0 <= i < deleted(s, id).len() ==> (#[trigger] deleted(s, id)[i]).id@ != id,
{
    lemma_without(s, object_key(), id);
    let t = deleted(s, id);
    assert forall|i: int| 0 <= i < t.len() implies (#[trigger] t[i]).id@ != id by {
        if t[i].id@ == id {
            assert(object_key()(t[i]) == id);
        }
    }
}

/// Once `o` is in the table, stating `o2` for the same id asks to release the
/// old resource and attach a new one exactly when the shape changes, and to
/// keep the resource when it does not.
pub proof fn lemma_reattach_only_on_shape_change(
    s: Seq<VisualizerObject>,
    o: ObjectPose,
    now: u64,
    o2: ObjectPose,
)
    requires
        keys_unique(s, object_key()),
        o2.id@ == o.id@,
    ensures
        node_change(upserted(s, o, now), o2) == (if o2.shape != o.shape {
            NodeChange::Reattach
        } else {
            NodeChange::Keep
        }),
{
    lemma_put(s, object_key(), o.id@, entry_of(o, now));
}

/// A cloud anchored to an absent object is anchored at the origin with the
/// identity rotation; once that object is stated, later reads follow its
/// pose and rotation for as long as its lease runs, with no new snapshot.
pub proof fn lemma_anchor_follows_parent(
    s: Seq<VisualizerObject>,
    o: ObjectPose,
    now: u64,
    later: u64,
)
    requires
        keys_unique(s, object_key()),
        !expired(now, o.timeout_ms, later),
    ensures
        !has_key(s, object_key(), o.id@) ==> anchor_of(s, Some(o.id@), later) == (
            origin(),
            identity_quaternion(),
        ),
        anchor_of(upserted(s, o, now), Some(o.id@), later) == (o.pose, o.rotation),
{
    lemma_put(s, object_key(), o.id@, entry_of(o, now));
}

} // verus!
