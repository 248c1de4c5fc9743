use pose_publisher::commands::Command;
use pose_publisher::point_cloud::PointCloud2;
use pose_publisher::pose::{
    Color, Point2, Point3, PoseClientUpdate, Quaternion, Scalar, Shape, DEFAULT_RADIUS_BITS,
    DEFAULT_TIMEOUT_MS,
};

fn s(x: f32) -> Scalar {
    Scalar::from_bits(x.to_bits())
}

#[test]
fn color_names() {
    assert_eq!(Color::Red.name(), "Red");
    assert_eq!(Color::Green.name(), "Green");
    assert_eq!(Color::Blue.name(), "Blue");
    assert_eq!(Color::Cyan.name(), "Cyan");
    assert_eq!(Color::Magenta.name(), "Magenta");
    assert_eq!(Color::Yellow.name(), "Yellow");
}

#[test]
fn color_channels() {
    assert_eq!(Color::Red.to_rgb(), (255, 0, 0));
    assert_eq!(Color::Green.to_rgb(), (0, 255, 0));
    assert_eq!(Color::Blue.to_rgb(), (0, 0, 255));
    assert_eq!(Color::Cyan.to_rgb(), (0, 255, 255));
    assert_eq!(Color::Magenta.to_rgb(), (255, 0, 255));
    assert_eq!(Color::Yellow.to_rgb(), (255, 255, 0));
}

#[test]
fn added_object_has_defaults() {
    let mut update = PoseClientUpdate::new();
    update.add("hi", Point3::new(s(0.0), s(0.0), s(0.5)));
    let o = &update.updates()[0];
    assert_eq!(o.id, "hi");
    assert_eq!(o.pose, Point3::new(s(0.0), s(0.0), s(0.5)));
    assert_eq!(o.timeout_ms, 5000);
    assert_eq!(o.timeout_ms, DEFAULT_TIMEOUT_MS);
    assert_eq!(o.color, Color::Red);
    assert_eq!(o.shape, Shape::Sphere(s(0.05)));
    assert_eq!(DEFAULT_RADIUS_BITS, 0.05f32.to_bits());
    assert_eq!(o.rotation, Quaternion::new(s(0.0), s(0.0), s(0.0), s(1.0)));
    assert!(update.deletions().is_empty());
}

#[test]
fn builder_chain_overrides_attributes() {
    let mut update = PoseClientUpdate::new();
    update
        .add("hi", Point3::new(s(1.0), s(2.0), s(3.0)))
        .with_color(Color::Cyan)
        .with_shape(Shape::Cube(s(0.3), s(0.01), s(0.01)))
        .with_timeout(250)
        .with_rotation(Quaternion::new(s(0.0), s(0.0), s(1.0), s(0.0)));
    update.add("second", Point3::new(s(0.0), s(0.0), s(0.0)));
    update.delete("old");
    assert_eq!(update.updates().len(), 2);
    let o = &update.updates()[0];
    assert_eq!(o.color, Color::Cyan);
    assert_eq!(o.shape, Shape::Cube(s(0.3), s(0.01), s(0.01)));
    assert_eq!(o.timeout_ms, 250);
    assert_eq!(o.rotation, Quaternion::new(s(0.0), s(0.0), s(1.0), s(0.0)));
    assert_eq!(update.updates()[1].id, "second");
    assert_eq!(update.deletions(), &vec!["old".to_string()]);
}

#[test]
fn point_cloud_builder() {
    let points = vec![Point2::new(s(1.0), s(2.0))];
    let cloud = PointCloud2::from_points("scan", points.clone());
    assert_eq!(cloud.id(), "scan");
    assert_eq!(cloud.parent_frame_id(), &None);
    assert_eq!(cloud.points(), &points);
    assert_eq!(cloud.timeout(), 5000);
    assert_eq!(cloud.color(), &Color::Red);
    let cloud = cloud.with_timeout(10).with_color(Color::Yellow).with_parent_frame_id("robot");
    assert_eq!(cloud.timeout(), 10);
    assert_eq!(cloud.color(), &Color::Yellow);
    assert_eq!(cloud.parent_frame_id(), &Some("robot".to_string()));
    assert_eq!(cloud.points(), &points);
}

#[test]
fn command_accessors() {
    let c = Command::new(7, Point2::new(s(1.5), s(-2.0)), s(0.25), s(3.0));
    assert_eq!(c.id(), 7);
    assert_eq!(c.point(), Point2::new(s(1.5), s(-2.0)));
    assert_eq!(c.angle(), s(0.25));
    assert_eq!(c.length(), s(3.0));
}

#[test]
fn scalar_keeps_bits() {
    let x = Scalar::from_bits(1.25f32.to_bits());
    assert_eq!(f32::from_bits(x.to_bits()), 1.25);
    assert_ne!(s(0.0), s(-0.0));
}

#[test]
fn defaults_are_empty_and_zero() {
    let update = PoseClientUpdate::default();
    assert!(update.updates().is_empty());
    assert!(update.deletions().is_empty());
    let c = Command::default();
    assert_eq!(c.id(), 0);
    assert_eq!(c.point(), Point2::new(s(0.0), s(0.0)));
    assert_eq!(c.angle(), s(0.0));
    assert_eq!(c.length(), s(0.0));
}
