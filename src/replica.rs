use vstd::prelude::*;

use crate::keyed::{
    has_key, keys_unique, lemma_filter_unique, lemma_position_absent, lemma_position_bounds,
    lemma_position_found, lemma_put, lemma_without, lemma_without_other, position_of, put, without,
};
use crate::point_cloud::PointCloud2;
use crate::pose::{
    identity_quaternion, identity_rotation, origin, origin_point, Color, ObjectPose, Point3,
    PoseClientUpdate, Quaternion, Shape,
};

verus! {

/// Whether a lease of `timeout` milliseconds, last renewed at `touched`, has
/// run out at `now`: strictly more than `timeout` has passed since `touched`.
pub open spec fn expired(touched: u64, timeout: u64, now: u64) -> bool {
    now - touched > timeout
}

fn lease_expired(touched: u64, timeout: u64, now: u64) -> (r: bool)
    ensures
        r == expired(touched, timeout, now),
{
    now > touched && now - touched > timeout
}

/// What the replica holds of one object: the last state stated for it, and
/// when it was last stated. Times are milliseconds on the caller's clock.
#[derive(Clone, Debug, PartialEq, Eq)]
pub struct VisualizerObject {
    pub id: String,
    pub current_shape: Shape,
    pub last_update_ms: u64,
    pub timeout_ms: u64,
    pub last_pose: Point3,
    pub last_rotation: Quaternion,
    pub last_color: Color,
}

/// The entry that stating `o` at time `now` leaves in the replica.
pub open spec fn entry_of(o: ObjectPose, now: u64) -> VisualizerObject {
    VisualizerObject {
        id: o.id,
        current_shape: o.shape,
        last_update_ms: now,
        timeout_ms: o.timeout_ms,
        last_pose: o.pose,
        last_rotation: o.rotation,
        last_color: o.color,
    }
}

impl VisualizerObject {
    pub open spec fn timed_out(&self, now: u64) -> bool {
        expired(self.last_update_ms, self.timeout_ms, now)
    }

    pub fn new(object_info: &ObjectPose, now: u64) -> (r: Self)
        ensures
            r == entry_of(*object_info, now),
    {
        VisualizerObject {
            id: object_info.id.clone(),
            current_shape: object_info.shape,
            last_update_ms: now,
            timeout_ms: object_info.timeout_ms,
            last_pose: object_info.pose,
            last_rotation: object_info.rotation,
            last_color: object_info.color,
        }
    }

    /// Overwrites every attribute with those of `update` and renews the lease
    /// at `now`. Tells whether the shape changed.
    pub fn update(&mut self, update: &ObjectPose, now: u64) -> (shape_changed: bool)
        ensures
            *final(self) == entry_of(*update, now),
            shape_changed == (old(self).current_shape != update.shape),
    {
        let shape_changed = self.current_shape != update.shape;
        self.id = update.id.clone();
        self.last_update_ms = now;
        self.last_pose = update.pose;
        self.last_rotation = update.rotation;
        self.last_color = update.color;
        self.timeout_ms = update.timeout_ms;
        self.current_shape = update.shape;
        shape_changed
    }

    pub fn is_timed_out(&self, now: u64) -> (r: bool)
        ensures
            r == self.timed_out(now),
    {
        lease_expired(self.last_update_ms, self.timeout_ms, now)
    }
}

/// What the replica holds of one point cloud: its last snapshot and when
/// that arrived.
#[derive(Clone, Debug, PartialEq, Eq)]
pub struct PointCloudContainer {
    pub point_cloud: PointCloud2,
    pub last_touched_ms: u64,
}

impl PointCloudContainer {
    pub open spec fn timed_out(&self, now: u64) -> bool {
        expired(self.last_touched_ms, self.point_cloud.spec_timeout_ms(), now)
    }

    pub fn new(point_cloud: PointCloud2, now: u64) -> (r: Self)
        ensures
            r == (PointCloudContainer { point_cloud, last_touched_ms: now }),
    {
        PointCloudContainer { point_cloud, last_touched_ms: now }
    }

    pub fn point_cloud(&self) -> (r: &PointCloud2)
        ensures
            *r == self.point_cloud,
    {
        &self.point_cloud
    }

    pub fn is_timed_out(&self, now: u64) -> (r: bool)
        ensures
            r == self.timed_out(now),
    {
        lease_expired(self.last_touched_ms, self.point_cloud.timeout(), now)
    }
}

/// The key of an object entry: its id.
pub open spec fn object_key() -> spec_fn(VisualizerObject) -> Seq<char> {
    |e: VisualizerObject| e.id@
}

/// The key of a cloud entry: its snapshot's id.
pub open spec fn cloud_key() -> spec_fn(PointCloudContainer) -> Seq<char> {
    |c: PointCloudContainer| c.point_cloud.spec_id()
}

/// Object entries whose lease still runs at `now`.
pub open spec fn object_live_at(now: u64) -> spec_fn(VisualizerObject) -> bool {
    |e: VisualizerObject| !e.timed_out(now)
}

/// Object entries whose lease has run out at `now`.
pub open spec fn object_expired_at(now: u64) -> spec_fn(VisualizerObject) -> bool {
    |e: VisualizerObject| e.timed_out(now)
}

/// Cloud entries whose lease still runs at `now`.
pub open spec fn cloud_live_at(now: u64) -> spec_fn(PointCloudContainer) -> bool {
    |c: PointCloudContainer| !c.timed_out(now)
}

/// The object table after `o` is stated at `now`: the entry with its id is
/// overwritten in place, or a new entry is appended.
pub open spec fn upserted(s: Seq<VisualizerObject>, o: ObjectPose, now: u64) -> Seq<VisualizerObject> {
    put(s, object_key(), o.id@, entry_of(o, now))
}

/// The object table after the object `id` is deleted.
pub open spec fn deleted(s: Seq<VisualizerObject>, id: Seq<char>) -> Seq<VisualizerObject> {
    without(s, object_key(), id)
}

/// The object table after each of `objects` is stated at `now`, in order.
pub open spec fn upserted_all(s: Seq<VisualizerObject>, objects: Seq<ObjectPose>, now: u64) -> Seq<
    VisualizerObject,
>
    decreases objects.len(),
{
    if objects.len() == 0 {
        s
    } else {
        upserted(upserted_all(s, objects.drop_last(), now), objects.last(), now)
    }
}

/// The object table after each of `ids` is deleted, in order.
pub open spec fn deleted_all(s: Seq<VisualizerObject>, ids: Seq<String>) -> Seq<VisualizerObject>
    decreases ids.len(),
{
    if ids.len() == 0 {
        s
    } else {
        deleted(deleted_all(s, ids.drop_last()), ids.last()@)
    }
}

/// The object table after a whole batch arrives at `now`: first its upserts,
/// then its deletions.
pub open spec fn batch_applied(s: Seq<VisualizerObject>, batch: PoseClientUpdate, now: u64) -> Seq<
    VisualizerObject,
> {
    deleted_all(upserted_all(s, batch.spec_updates(), now), batch.spec_deletions())
}

/// The cloud table after `cloud` arrives at `now`: it replaces the entry
/// with its id in full, or is appended.
pub open spec fn cloud_replaced(s: Seq<PointCloudContainer>, cloud: PointCloud2, now: u64) -> Seq<
    PointCloudContainer,
> {
    put(s, cloud_key(), cloud.spec_id(), PointCloudContainer { point_cloud: cloud, last_touched_ms: now })
}

/// What a consumer that keeps a resource per object (a drawn node, say) has
/// to do with it after an upsert.
#[derive(Clone, Copy, Debug, PartialEq, Eq, Structural)]
pub enum NodeChange {
    /// The object is new: attach a resource for its shape.
    Attach,
    /// The shape changed: release the old resource and attach a new one.
    Reattach,
    /// The shape is the same: update the resource in place.
    Keep,
}

/// The resource change that stating `o` against table `s` calls for.
pub open spec fn node_change(s: Seq<VisualizerObject>, o: ObjectPose) -> NodeChange {
    let i = position_of(s, object_key(), o.id@);
    if i < 0 {
        NodeChange::Attach
    } else if s[i].current_shape != o.shape {
        NodeChange::Reattach
    } else {
        NodeChange::Keep
    }
}

/// The frame a cloud anchored to `parent` is drawn in at `now`: the live
/// pose and rotation of that object, or the origin with the identity
/// rotation when the object is absent or its lease has run out.
pub open spec fn anchor_of(s: Seq<VisualizerObject>, parent: Option<Seq<char>>, now: u64) -> (
    Point3,
    Quaternion,
) {
    match parent {
        Some(p) => {
            let i = position_of(s, object_key(), p);
            if i >= 0 && !s[i].timed_out(now) {
                (s[i].last_pose, s[i].last_rotation)
            } else {
                (origin(), identity_quaternion())
            }
        },
        None => (origin(), identity_quaternion()),
    }
}

/// A straight segment to draw for an object shaped as a line.
#[derive(Clone, Copy, Debug, PartialEq, Eq, Structural)]
pub struct LineSegment {
    pub start: Point3,
    pub end: Point3,
    pub color: Color,
}

/// The segments of the line-shaped objects of `s`, in table order.
pub open spec fn line_segments_of(s: Seq<VisualizerObject>) -> Seq<LineSegment>
    decreases s.len(),
{
    if s.len() == 0 {
        Seq::empty()
    } else {
        let rest = line_segments_of(s.drop_last());
        match s.last().current_shape {
            Shape::Line(end) => rest.push(
                LineSegment { start: s.last().last_pose, end, color: s.last().last_color },
            ),
            _ => rest,
        }
    }
}

/// A subscriber's replica: the live objects and point clouds, each keyed by
/// a unique id.
pub struct ObjectContainer {
    objects: Vec<VisualizerObject>,
    point_clouds: Vec<PointCloudContainer>,
}

impl ObjectContainer {
    pub closed spec fn spec_objects(&self) -> Seq<VisualizerObject> {
        self.objects@
    }

    pub closed spec fn spec_clouds(&self) -> Seq<PointCloudContainer> {
        self.point_clouds@
    }

    /// Ids are unique in each table.
    pub open spec fn wf(&self) -> bool {
        &&& keys_unique(self.spec_objects(), object_key())
        &&& keys_unique(self.spec_clouds(), cloud_key())
    }

    pub fn new() -> (r: Self)
        ensures
            r.wf(),
            r.spec_objects() == Seq::<VisualizerObject>::empty(),
            r.spec_clouds() == Seq::<PointCloudContainer>::empty(),
    {
        Self { objects: Vec::new(), point_clouds: Vec::new() }
    }

    /// The entries of the object table, in the order they were created.
    pub fn objects(&self) -> (r: &Vec<VisualizerObject>)
        ensures
            r@ == self.spec_objects(),
    {
        &self.objects
    }

    /// The entries of the cloud table, in the order they were created.
    pub fn point_clouds(&self) -> (r: &Vec<PointCloudContainer>)
        ensures
            r@ == self.spec_clouds(),
    {
        &self.point_clouds
    }

    fn find_object(&self, id: &String) -> (r: Option<usize>)
        requires
            self.wf(),
        ensures
            match r {
                Some(i) => i == position_of(self.spec_objects(), object_key(), id@),
                None => position_of(self.spec_objects(), object_key(), id@) == -1,
            },
    {
        let mut i: usize = 0;
        while i < self.objects.len()
            invariant
                self.wf(),
                i <= self.objects@.len(),
                forall|j: int| 0 <= j < i ==> #[trigger] self.objects@[j].id@ != id@,
            decreases self.objects@.len() - i,
        {
            if self.objects[i].id == *id {
                proof {
                    lemma_position_found(self.spec_objects(), object_key(), id@, i as int);
                }
                return Some(i);
            }
            i += 1;
        }
        proof {
            lemma_position_absent(self.spec_objects(), object_key(), id@);
        }
        None
    }

    fn find_cloud(&self, id: &String) -> (r: Option<usize>)
        requires
            self.wf(),
        ensures
            match r {
                Some(i) => i == position_of(self.spec_clouds(), cloud_key(), id@),
                None => position_of(self.spec_clouds(), cloud_key(), id@) == -1,
            },
    {
        let mut i: usize = 0;
        while i < self.point_clouds.len()
            invariant
                self.wf(),
                i <= self.point_clouds@.len(),
                forall|j: int|
                    0 <= j < i ==> #[trigger] self.point_clouds@[j].point_cloud.spec_id() != id@,
            decreases self.point_clouds@.len() - i,
        {
            if *self.point_clouds[i].point_cloud.id_string() == *id {
                proof {
                    lemma_position_found(self.spec_clouds(), cloud_key(), id@, i as int);
                }
                return Some(i);
            }
            i += 1;
        }
        proof {
            lemma_position_absent(self.spec_clouds(), cloud_key(), id@);
        }
        None
    }

    /// Folds one stated object into the table at `now`: the entry with its
    /// id is overwritten whole, or created. Tells what to do with a resource
    /// kept for the object.
    pub fn update_object(&mut self, object: &ObjectPose, now: u64) -> (r: NodeChange)
        requires
            old(self).wf(),
        ensures
            final(self).wf(),
            final(self).spec_objects() == upserted(old(self).spec_objects(), *object, now),
            final(self).spec_clouds() == old(self).spec_clouds(),
            r == node_change(old(self).spec_objects(), *object),
    {
        proof {
            lemma_put(self.spec_objects(), object_key(), object.id@, entry_of(*object, now));
        }
        match self.find_object(&object.id) {
            Some(i) => {
                let shape_changed = self.objects[i].update(object, now);
                if shape_changed {
                    NodeChange::Reattach
                } else {
                    NodeChange::Keep
                }
            },
            None => {
                self.objects.push(VisualizerObject::new(object, now));
                NodeChange::Attach
            },
        }
    }

    /// Removes the object `id` at once, whatever remains of its lease, and
    /// hands back the entry removed, if there was one.
    pub fn delete_object(&mut self, id: &str) -> (r: Option<VisualizerObject>)
        requires
            old(self).wf(),
        ensures
            final(self).wf(),
            final(self).spec_objects() == deleted(old(self).spec_objects(), id@),
            final(self).spec_clouds() == old(self).spec_clouds(),
            !has_key(final(self).spec_objects(), object_key(), id@),
            r is Some <==> has_key(old(self).spec_objects(), object_key(), id@),
            r is Some ==> r->Some_0 == old(self).spec_objects()[position_of(
                old(self).spec_objects(),
                object_key(),
                id@,
            )],
    {
        let key = id.to_owned();
        proof {
            lemma_without(self.spec_objects(), object_key(), id@);
            lemma_position_bounds(self.spec_objects(), object_key(), id@);
        }
        match self.find_object(&key) {
            Some(i) => Some(self.objects.remove(i)),
            None => None,
        }
    }

    /// Folds a whole batch into the table at `now`: its upserts in order,
    /// then its deletions in order. Every id the batch deletes is absent
    /// afterwards.
    pub fn apply_update_batch(&mut self, batch: &PoseClientUpdate, now: u64)
        requires
            old(self).wf(),
        ensures
            final(self).wf(),
            final(self).spec_objects() == batch_applied(old(self).spec_objects(), *batch, now),
            final(self).spec_clouds() == old(self).spec_clouds(),
            forall|k: int|
                0 <= k < batch.spec_deletions().len() ==> !has_key(
                    final(self).spec_objects(),
                    object_key(),
                    #[trigger] batch.spec_deletions()[k]@,
                ),
    {
        let ghost start = self.spec_objects();
        let ghost clouds = self.spec_clouds();
        let updates = batch.updates();
        let mut i: usize = 0;
        while i < updates.len()
            invariant
                self.wf(),
                updates@ == batch.spec_updates(),
                i <= updates@.len(),
                self.spec_objects() == upserted_all(start, updates@.subrange(0, i as int), now),
                self.spec_clouds() == clouds,
            decreases updates@.len() - i,
        {
            proof {
                assert(updates@.subrange(0, i + 1).drop_last() =~= updates@.subrange(0, i as int));
            }
            self.update_object(&updates[i], now);
            i += 1;
        }
        proof {
            assert(updates@.subrange(0, updates@.len() as int) =~= updates@);
        }
        let ghost upserted_table = self.spec_objects();
        let deletions = batch.deletions();
        let mut j: usize = 0;
        while j < deletions.len()
            invariant
                self.wf(),
                deletions@ == batch.spec_deletions(),
                upserted_table == upserted_all(start, batch.spec_updates(), now),
                j <= deletions@.len(),
                self.spec_objects() == deleted_all(upserted_table, deletions@.subrange(0, j as int)),
                self.spec_clouds() == clouds,
                forall|k: int|
                    0 <= k < j ==> !has_key(self.spec_objects(), object_key(), #[trigger] deletions@[k]@),
            decreases deletions@.len() - j,
        {
            proof {
                assert(deletions@.subrange(0, j + 1).drop_last() =~= deletions@.subrange(0, j as int));
                let before = self.spec_objects();
                let gone = deletions@[j as int]@;
                lemma_without(before, object_key(), gone);
                assert forall|k: int| 0 <= k < j + 1 implies !has_key(
                    without(before, object_key(), gone),
                    object_key(),
                    #[trigger] deletions@[k]@,
                ) by {
                    if deletions@[k]@ != gone {
                        lemma_without_other(before, object_key(), gone, deletions@[k]@);
                    }
                }
            }
            self.delete_object(deletions[j].as_str());
            j += 1;
        }
        proof {
            assert(deletions@.subrange(0, deletions@.len() as int) =~= deletions@);
        }
    }

    /// Takes in a point-cloud snapshot at `now`: it replaces the entry with
    /// its id in full, or is added.
    pub fn apply_cloud_snapshot(&mut self, point_cloud: PointCloud2, now: u64)
        requires
            old(self).wf(),
        ensures
            final(self).wf(),
            final(self).spec_clouds() == cloud_replaced(old(self).spec_clouds(), point_cloud, now),
            final(self).spec_objects() == old(self).spec_objects(),
    {
        proof {
            lemma_put(
                self.spec_clouds(),
                cloud_key(),
                point_cloud.spec_id(),
                PointCloudContainer { point_cloud, last_touched_ms: now },
            );
        }
        let found = self.find_cloud(point_cloud.id_string());
        let entry = PointCloudContainer::new(point_cloud, now);
        match found {
            Some(i) => {
                self.point_clouds.set(i, entry);
            },
            None => {
                self.point_clouds.push(entry);
            },
        }
    }

    /// Drops every object and every cloud whose lease has run out at `now`,
    /// keeping the others untouched and in order. Hands back the objects
    /// dropped, in table order.
    pub fn sweep(&mut self, now: u64) -> (released: Vec<VisualizerObject>)
        requires
            old(self).wf(),
        ensures
            final(self).wf(),
            final(self).spec_objects() == old(self).spec_objects().filter(object_live_at(now)),
            final(self).spec_clouds() == old(self).spec_clouds().filter(cloud_live_at(now)),
            released@ == old(self).spec_objects().filter(object_expired_at(now)),
    {
        let ghost start = self.objects@;
        let ghost clouds = self.point_clouds@;
        let mut released: Vec<VisualizerObject> = Vec::new();
        let mut i: usize = 0;
        let ghost mut j: int = 0;
        while i < self.objects.len()
            invariant
                0 <= j <= start.len(),
                i == start.subrange(0, j).filter(object_live_at(now)).len(),
                self.objects@ == start.subrange(0, j).filter(object_live_at(now)) + start.subrange(
                    j,
                    start.len() as int,
                ),
                released@ == start.subrange(0, j).filter(object_expired_at(now)),
                self.point_clouds@ == clouds,
            decreases self.objects@.len() - i,
        {
            let ghost kept = start.subrange(0, j).filter(object_live_at(now));
            let ghost rest = start.subrange(j, start.len() as int);
            proof {
                assert(rest.len() > 0);
                assert(self.objects@[i as int] == rest[0]);
                assert(start.subrange(0, j + 1).drop_last() =~= start.subrange(0, j));
                assert(start.subrange(0, j + 1).last() == rest[0]);
                assert(rest.drop_first() =~= start.subrange(j + 1, start.len() as int));
                reveal_with_fuel(Seq::filter, 1);
                if rest[0].timed_out(now) {
                    assert(start.subrange(0, j + 1).filter(object_live_at(now)) == kept);
                    assert(start.subrange(0, j + 1).filter(object_expired_at(now)) == start.subrange(
                        0,
                        j,
                    ).filter(object_expired_at(now)).push(rest[0]));
                } else {
                    assert(start.subrange(0, j + 1).filter(object_live_at(now)) == kept.push(rest[0]));
                    assert(start.subrange(0, j + 1).filter(object_expired_at(now)) == start.subrange(
                        0,
                        j,
                    ).filter(object_expired_at(now)));
                }
            }
            if self.objects[i].is_timed_out(now) {
                let e = self.objects.remove(i);
                released.push(e);
                proof {
                    assert(self.objects@ =~= kept + rest.drop_first());
                }
            } else {
                i += 1;
                proof {
                    assert(self.objects@ =~= kept.push(rest[0]) + rest.drop_first());
                }
            }
            proof {
                j = j + 1;
            }
        }
        proof {
            assert(start.subrange(0, j) =~= start);
            assert(self.objects@ =~= start.filter(object_live_at(now)));
            lemma_filter_unique(start, object_key(), object_live_at(now));
        }
        let mut k: usize = 0;
        let ghost mut m: int = 0;
        while k < self.point_clouds.len()
            invariant
                0 <= m <= clouds.len(),
                k == clouds.subrange(0, m).filter(cloud_live_at(now)).len(),
                self.point_clouds@ == clouds.subrange(0, m).filter(cloud_live_at(now)) + clouds.subrange(
                    m,
                    clouds.len() as int,
                ),
                self.objects@ == start.filter(object_live_at(now)),
                released@ == start.filter(object_expired_at(now)),
            decreases self.point_clouds@.len() - k,
        {
            let ghost kept = clouds.subrange(0, m).filter(cloud_live_at(now));
            let ghost rest = clouds.subrange(m, clouds.len() as int);
            proof {
                assert(rest.len() > 0);
                assert(self.point_clouds@[k as int] == rest[0]);
                assert(clouds.subrange(0, m + 1).drop_last() =~= clouds.subrange(0, m));
                assert(clouds.subrange(0, m + 1).last() == rest[0]);
                assert(rest.drop_first() =~= clouds.subrange(m + 1, clouds.len() as int));
                reveal_with_fuel(Seq::filter, 1);
                if rest[0].timed_out(now) {
                    assert(clouds.subrange(0, m + 1).filter(cloud_live_at(now)) == kept);
                } else {
                    assert(clouds.subrange(0, m + 1).filter(cloud_live_at(now)) == kept.push(rest[0]));
                }
            }
            if self.point_clouds[k].is_timed_out(now) {
                self.point_clouds.remove(k);
                proof {
                    assert(self.point_clouds@ =~= kept + rest.drop_first());
                }
            } else {
                k += 1;
                proof {
                    assert(self.point_clouds@ =~= kept.push(rest[0]) + rest.drop_first());
                }
            }
            proof {
                m = m + 1;
            }
        }
        proof {
            assert(clouds.subrange(0, m) =~= clouds);
            assert(self.point_clouds@ =~= clouds.filter(cloud_live_at(now)));
            lemma_filter_unique(clouds, cloud_key(), cloud_live_at(now));
        }
        released
    }

    /// The frame that anchors `point_cloud` at `now`: the live pose and
    /// rotation of its parent object, or the origin with the identity
    /// rotation when it has no parent or the parent is absent.
    pub fn cloud_anchor(&self, point_cloud: &PointCloud2, now: u64) -> (r: (Point3, Quaternion))
        requires
            self.wf(),
        ensures
            r == anchor_of(self.spec_objects(), point_cloud.spec_parent_frame_id(), now),
    {
        match point_cloud.parent_frame_id() {
            Some(parent) => match self.find_object(parent) {
                Some(i) => {
                    if self.objects[i].is_timed_out(now) {
                        (origin_point(), identity_rotation())
                    } else {
                        (self.objects[i].last_pose, self.objects[i].last_rotation)
                    }
                },
                None => (origin_point(), identity_rotation()),
            },
            None => (origin_point(), identity_rotation()),
        }
    }

    /// The segments to draw for the objects shaped as lines, in table order.
    pub fn line_segments(&self) -> (r: Vec<LineSegment>)
        ensures
            r@ == line_segments_of(self.spec_objects()),
    {
        let mut r: Vec<LineSegment> = Vec::new();
        let mut i: usize = 0;
        while i < self.objects.len()
            invariant
                i <= self.objects@.len(),
                r@ == line_segments_of(self.objects@.subrange(0, i as int)),
            decreases self.objects@.len() - i,
        {
            proof {
                assert(self.objects@.subrange(0, i + 1).drop_last() =~= self.objects@.subrange(0, i as int));
            }
            let entry = &self.objects[i];
            match entry.current_shape {
                Shape::Line(end) => {
                    r.push(LineSegment { start: entry.last_pose, end, color: entry.last_color });
                },
                _ => {},
            }
            i += 1;
        }
        proof {
            assert(self.objects@.subrange(0, i as int) =~= self.objects@);
        }
        r
    }
}

} // verus!
