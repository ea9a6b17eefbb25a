use hxdown::err::HxError;
use hxdown::fs::local::LocalFS;

#[test]
fn wrapped_error_keeps_its_cause() {
    let e = HxError::warp(true, "No such file or directory (os error 2)".to_string());
    assert!(e.retry);
    assert_eq!(e.description(), "No such file or directory (os error 2)");
    assert_eq!(e.cause().map(|s| s.as_str()), Some("No such file or directory (os error 2)"));
    assert_eq!(e.to_display_string(), "<HxFsErr: No such file or directory (os error 2)>");
}

#[test]
fn plain_error_has_no_cause() {
    let e = HxError::warp_str(false, "disk full".to_string());
    assert!(!e.retry);
    assert_eq!(e.description(), "disk full");
    assert!(e.cause().is_none());
    assert_eq!(e.to_display_string(), "<HxFsErr: disk full>");
}

#[test]
fn local_fs_root() {
    let fs = LocalFS::new(".");
    assert_eq!(fs.root, ".");
}
