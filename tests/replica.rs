use pose_publisher::point_cloud::PointCloud2;
use pose_publisher::pose::{
    Color, ObjectPose, Point2, Point3, PoseClientUpdate, Quaternion, Scalar, Shape,
    DEFAULT_TIMEOUT_MS,
};
use pose_publisher::replica::{LineSegment, NodeChange, ObjectContainer, VisualizerObject};

fn s(x: f32) -> Scalar {
    Scalar::from_bits(x.to_bits())
}

fn p3(x: f32, y: f32, z: f32) -> Point3 {
    Point3::new(s(x), s(y), s(z))
}

fn identity() -> Quaternion {
    Quaternion::new(s(0.0), s(0.0), s(0.0), s(1.0))
}

fn object(id: &str, pose: Point3, timeout_ms: u64, shape: Shape) -> ObjectPose {
    ObjectPose {
        id: id.to_string(),
        pose,
        timeout_ms,
        shape,
        color: Color::Red,
        rotation: identity(),
    }
}

fn ids(table: &ObjectContainer) -> Vec<String> {
    table.objects().iter().map(|e| e.id.clone()).collect()
}

#[test]
fn restating_same_object_twice_equals_stating_once() {
    let o = object("a", p3(1.0, 2.0, 3.0), 1000, Shape::Sphere(s(0.5)));
    let mut twice = ObjectContainer::new();
    assert_eq!(twice.update_object(&o, 10), NodeChange::Attach);
    assert_eq!(twice.update_object(&o, 40), NodeChange::Keep);
    let mut once = ObjectContainer::new();
    once.update_object(&o, 40);
    assert_eq!(twice.objects(), once.objects());
    let entry = &twice.objects()[0];
    assert_eq!(entry.last_update_ms, 40);
    assert_eq!(entry.last_pose, p3(1.0, 2.0, 3.0));
    assert_eq!(entry.timeout_ms, 1000);
    assert_eq!(entry.current_shape, Shape::Sphere(s(0.5)));
}

#[test]
fn upsert_overwrites_every_attribute_in_place() {
    let mut table = ObjectContainer::new();
    table.update_object(&object("a", p3(0.0, 0.0, 0.0), 1000, Shape::Sphere(s(0.1))), 0);
    table.update_object(&object("b", p3(5.0, 0.0, 0.0), 1000, Shape::Sphere(s(0.1))), 0);
    let mut newer = object("a", p3(0.0, 0.0, 1.0), 3000, Shape::Sphere(s(0.1)));
    newer.color = Color::Cyan;
    newer.rotation = Quaternion::new(s(0.0), s(1.0), s(0.0), s(0.0));
    assert_eq!(table.update_object(&newer, 7), NodeChange::Keep);
    assert_eq!(ids(&table), vec!["a".to_string(), "b".to_string()]);
    let a = &table.objects()[0];
    assert_eq!(a.last_pose, p3(0.0, 0.0, 1.0));
    assert_eq!(a.last_color, Color::Cyan);
    assert_eq!(a.last_rotation, Quaternion::new(s(0.0), s(1.0), s(0.0), s(0.0)));
    assert_eq!(a.timeout_ms, 3000);
    assert_eq!(a.last_update_ms, 7);
}

#[test]
fn shape_change_reattaches_once_and_same_shape_never() {
    let mut table = ObjectContainer::new();
    let sphere = object("a", p3(0.0, 0.0, 0.0), 1000, Shape::Sphere(s(0.2)));
    let cube = object("a", p3(0.0, 0.0, 0.0), 1000, Shape::Cube(s(0.3), s(0.01), s(0.01)));
    assert_eq!(table.update_object(&sphere, 0), NodeChange::Attach);
    assert_eq!(table.update_object(&sphere, 1), NodeChange::Keep);
    assert_eq!(table.update_object(&cube, 2), NodeChange::Reattach);
    assert_eq!(table.update_object(&cube, 3), NodeChange::Keep);
    assert_eq!(table.update_object(&cube, 4), NodeChange::Keep);
    assert_eq!(table.update_object(&sphere, 5), NodeChange::Reattach);
    let bigger = object("a", p3(0.0, 0.0, 0.0), 1000, Shape::Sphere(s(0.4)));
    assert_eq!(table.update_object(&bigger, 6), NodeChange::Reattach);
    assert_eq!(table.objects().len(), 1);
}

#[test]
fn sweep_removes_exactly_the_expired_entries() {
    let mut table = ObjectContainer::new();
    table.update_object(&object("old", p3(0.0, 0.0, 0.0), 100, Shape::Sphere(s(0.1))), 0);
    table.update_object(&object("edge", p3(0.0, 0.0, 0.0), 200, Shape::Sphere(s(0.1))), 0);
    table.update_object(&object("fresh", p3(0.0, 0.0, 0.0), 100, Shape::Sphere(s(0.1))), 150);
    table.apply_cloud_snapshot(PointCloud2::from_points("c1", vec![]).with_timeout(100), 0);
    table.apply_cloud_snapshot(PointCloud2::from_points("c2", vec![]).with_timeout(500), 0);
    let kept_before: Vec<VisualizerObject> = table.objects()[1..].to_vec();
    let released = table.sweep(200);
    assert_eq!(released.len(), 1);
    assert_eq!(released[0].id, "old");
    assert_eq!(table.objects().to_vec(), kept_before);
    assert_eq!(table.point_clouds().len(), 1);
    assert_eq!(table.point_clouds()[0].point_cloud().id(), "c2");
}

#[test]
fn sweep_of_empty_table_is_empty() {
    let mut table = ObjectContainer::new();
    assert!(table.sweep(1_000_000).is_empty());
    assert!(table.objects().is_empty());
    assert!(table.point_clouds().is_empty());
}

#[test]
fn sweep_before_last_touch_keeps_entry() {
    let mut table = ObjectContainer::new();
    table.update_object(&object("a", p3(0.0, 0.0, 0.0), 0, Shape::Sphere(s(0.1))), 500);
    assert!(table.sweep(100).is_empty());
    assert!(table.sweep(500).is_empty());
    assert_eq!(table.sweep(501).len(), 1);
}

#[test]
fn delete_removes_at_once_whatever_the_timeout() {
    let mut table = ObjectContainer::new();
    table.update_object(&object("a", p3(0.0, 0.0, 0.0), u64::MAX, Shape::Sphere(s(0.1))), 0);
    table.update_object(&object("b", p3(0.0, 0.0, 0.0), 1000, Shape::Sphere(s(0.1))), 0);
    let removed = table.delete_object("a");
    assert_eq!(removed.map(|e| e.id), Some("a".to_string()));
    assert_eq!(ids(&table), vec!["b".to_string()]);
    assert!(table.delete_object("a").is_none());
    assert!(table.delete_object("missing").is_none());
    assert_eq!(ids(&table), vec!["b".to_string()]);
}

#[test]
fn batch_applies_upserts_then_deletions() {
    let mut table = ObjectContainer::new();
    table.update_object(&object("gone", p3(0.0, 0.0, 0.0), 1000, Shape::Sphere(s(0.1))), 0);
    let mut batch = PoseClientUpdate::new();
    batch.add("x", p3(1.0, 0.0, 0.0));
    batch.add("y", p3(2.0, 0.0, 0.0)).with_color(Color::Blue);
    batch.delete("x");
    batch.delete("gone");
    batch.delete("never");
    table.apply_update_batch(&batch, 30);
    assert_eq!(ids(&table), vec!["y".to_string()]);
    let y = &table.objects()[0];
    assert_eq!(y.last_color, Color::Blue);
    assert_eq!(y.last_pose, p3(2.0, 0.0, 0.0));
    assert_eq!(y.timeout_ms, DEFAULT_TIMEOUT_MS);
    assert_eq!(y.last_update_ms, 30);
}

#[test]
fn cloud_snapshot_replaces_previous_in_full() {
    let mut table = ObjectContainer::new();
    let first = PointCloud2::from_points("c", vec![Point2::new(s(1.0), s(1.0)), Point2::new(s(2.0), s(2.0))])
        .with_parent_frame_id("robot")
        .with_color(Color::Green);
    table.apply_cloud_snapshot(first, 0);
    let second = PointCloud2::from_points("c", vec![Point2::new(s(3.0), s(3.0))]);
    table.apply_cloud_snapshot(second.clone(), 50);
    assert_eq!(table.point_clouds().len(), 1);
    assert_eq!(table.point_clouds()[0].point_cloud(), &second);
    assert_eq!(table.point_clouds()[0].last_touched_ms, 50);
    assert_eq!(table.point_clouds()[0].point_cloud().parent_frame_id(), &None);
}

#[test]
fn cloud_anchor_follows_parent_live() {
    let mut table = ObjectContainer::new();
    let cloud = PointCloud2::from_points("c", vec![Point2::new(s(1.0), s(0.0))]).with_parent_frame_id("robot");
    table.apply_cloud_snapshot(cloud.clone(), 0);
    let origin = p3(0.0, 0.0, 0.0);
    assert_eq!(table.cloud_anchor(&cloud, 0), (origin, identity()));

    let mut robot = object("robot", p3(1.0, 2.0, 0.0), 1000, Shape::Sphere(s(0.1)));
    robot.rotation = Quaternion::new(s(0.0), s(0.0), s(1.0), s(0.0));
    table.update_object(&robot, 10);
    assert_eq!(
        table.cloud_anchor(&table.point_clouds()[0].point_cloud().clone(), 20),
        (p3(1.0, 2.0, 0.0), Quaternion::new(s(0.0), s(0.0), s(1.0), s(0.0)))
    );

    let moved = object("robot", p3(4.0, 4.0, 0.0), 1000, Shape::Sphere(s(0.1)));
    table.update_object(&moved, 30);
    assert_eq!(table.cloud_anchor(&cloud, 40), (p3(4.0, 4.0, 0.0), identity()));

    assert_eq!(table.cloud_anchor(&cloud, 2000), (origin, identity()));
    table.delete_object("robot");
    assert_eq!(table.cloud_anchor(&cloud, 40), (origin, identity()));
}

#[test]
fn unanchored_cloud_sits_at_origin() {
    let mut table = ObjectContainer::new();
    table.update_object(&object("robot", p3(1.0, 2.0, 0.0), 1000, Shape::Sphere(s(0.1))), 0);
    let cloud = PointCloud2::from_points("c", vec![]);
    assert_eq!(table.cloud_anchor(&cloud, 0), (p3(0.0, 0.0, 0.0), identity()));
}

#[test]
fn line_segments_follow_line_shaped_objects() {
    let mut table = ObjectContainer::new();
    table.update_object(&object("ball", p3(0.0, 0.0, 0.0), 1000, Shape::Sphere(s(0.1))), 0);
    let mut line = object("l", p3(1.0, 0.0, 0.0), 1000, Shape::Line(p3(2.0, 0.0, 0.0)));
    line.color = Color::Magenta;
    table.update_object(&line, 0);
    assert_eq!(
        table.line_segments(),
        vec![LineSegment { start: p3(1.0, 0.0, 0.0), end: p3(2.0, 0.0, 0.0), color: Color::Magenta }]
    );
}

#[test]
fn refresh_then_silence_expires_entry() {
    let mut table = ObjectContainer::new();
    let mut first = PoseClientUpdate::new();
    first.add("a", p3(0.0, 0.0, 0.0)).with_timeout(1000);
    table.apply_update_batch(&first, 0);

    let mut second = PoseClientUpdate::new();
    second.add("a", p3(0.0, 0.0, 1.0)).with_timeout(1000);
    table.apply_update_batch(&second, 500);

    table.sweep(1100);
    assert_eq!(table.objects().len(), 1);
    assert_eq!(table.objects()[0].id, "a");
    assert_eq!(table.objects()[0].last_pose, p3(0.0, 0.0, 1.0));

    table.sweep(1600);
    assert!(table.objects().is_empty());
}
