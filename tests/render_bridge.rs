use async_ui_bridge::render::{MountPoint, Phase, RenderBridge};

#[test]
fn render_attaches_on_first_poll_and_detaches_on_drop() {
    let mut mount = MountPoint::new();
    let mut bridge = RenderBridge::new(42);
    assert!(!mount.contains(42));
    assert_eq!(bridge.phase(), Phase::Unattached);
    assert!(bridge.poll(&mut mount));
    assert!(mount.contains(42));
    assert_eq!(bridge.phase(), Phase::Attached);
    bridge.close(&mut mount);
    assert!(!mount.contains(42));
    assert_eq!(bridge.phase(), Phase::Detached);
    assert!(!bridge.poll(&mut mount));
    assert!(!mount.contains(42));
}

#[test]
fn render_polls_while_alive_attach_once() {
    let mut mount = MountPoint::new();
    mount.attach(1);
    let mut bridge = RenderBridge::new(2);
    assert!(bridge.poll(&mut mount));
    assert!(bridge.poll(&mut mount));
    assert!(bridge.poll(&mut mount));
    assert!(mount.contains(1) && mount.contains(2));
    bridge.close(&mut mount);
    bridge.close(&mut mount);
    assert!(mount.contains(1));
    assert!(!mount.contains(2));
    assert_eq!(bridge.node(), 2);
}

#[test]
fn render_never_polled_leaves_mount_untouched() {
    let mut mount = MountPoint::new();
    mount.attach(5);
    let mut bridge = RenderBridge::new(6);
    bridge.close(&mut mount);
    assert_eq!(bridge.phase(), Phase::Detached);
    assert!(!bridge.poll(&mut mount));
    assert!(mount.contains(5));
    assert!(!mount.contains(6));
}

#[test]
fn mount_point_detach_of_absent_node_is_a_no_op() {
    let mut mount = MountPoint::new();
    mount.attach(1);
    mount.attach(2);
    mount.detach(3);
    mount.detach(1);
    assert!(!mount.contains(1));
    assert!(mount.contains(2));
}
