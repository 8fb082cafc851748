use amux::model::{Session, Target, TargetKind};

#[test]
fn local_target_uses_stable_id() {
    let target = Target::local();
    assert_eq!(target.id, "local");
    assert_eq!(target.kind.as_str(), "local");
}

#[test]
fn session_status_reflects_attachment() {
    let detached = Session {
        id: "$0".to_owned(),
        name: "work".to_owned(),
        windows: 1,
        attached: false,
    };
    assert_eq!(detached.display_status(), "detached");
}

#[test]
fn attached_session_shows_attached() {
    let attached = Session {
        id: "$3".to_owned(),
        name: "build".to_owned(),
        windows: 2,
        attached: true,
    };
    assert_eq!(attached.display_status(), "attached");
}

#[test]
fn local_target_has_label_and_kind() {
    let target = Target::local();
    assert_eq!(target.label, "Local machine");
    assert_eq!(target.kind, TargetKind::Local);
}
