use safe_drive::context::Context;
use safe_drive::error::ErrorKind;
use safe_drive::node::{check_name, check_namespace, NodeOptions};

#[test]
fn node_name_rules() {
    assert!(check_name(b"talker"));
    assert!(check_name(b"_hidden_node"));
    assert!(check_name(b"node42"));
    assert!(!check_name(b""));
    assert!(!check_name(b"9lives"));
    assert!(!check_name(b"has-dash"));
    assert!(!check_name(b"has space"));
    assert!(!check_name(b"sl/ash"));
}

#[test]
fn namespace_rules() {
    assert!(check_namespace(b""));
    assert!(check_namespace(b"/"));
    assert!(check_namespace(b"/robots/arm_1"));
    assert!(!check_namespace(b"robots"));
    assert!(!check_namespace(b"/ro bots"));
}

#[test]
fn create_node_rejects_bad_names() {
    let ctx = Context::new().unwrap();
    let bad = ctx.create_node("9lives", None, NodeOptions::new());
    assert!(matches!(bad, Err(ErrorKind::InvalidArgument)));
    let bad_ns = ctx.create_node("talker", Some("no_slash"), NodeOptions::new());
    assert!(matches!(bad_ns, Err(ErrorKind::InvalidArgument)));
    let good = ctx.create_node("talker", Some("/demo"), NodeOptions::new());
    assert!(good.is_ok());
}

#[test]
fn node_options_defaults() {
    let o = NodeOptions::new();
    assert!(o.use_global_arguments);
    assert!(o.enable_rosout);
    let d = NodeOptions::default();
    assert_eq!(o, d);
}
