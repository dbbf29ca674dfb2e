use actix_ipware::{first_ready, Either, Timeout};

#[test]
fn timeout_from_millis() {
    let t = Timeout::from_millis(1500);
    assert_eq!(t.secs(), 1);
    assert_eq!(t.subsec_nanos(), 500_000_000);
}

#[test]
fn timeout_from_secs() {
    let t = Timeout::from_secs(3);
    assert_eq!(t.secs(), 3);
    assert_eq!(t.subsec_nanos(), 0);
}

#[test]
fn timeout_from_parts() {
    let t = Timeout::new(7, 250);
    assert_eq!(t.secs(), 7);
    assert_eq!(t.subsec_nanos(), 250);
}
#[test]
fn first_ready_prefers_left() {
    assert_eq!(first_ready(Some(1), Some("b")), Some(Either::Left(1)));
    assert_eq!(first_ready(None::<i32>, Some("b")), Some(Either::Right("b")));
    assert_eq!(first_ready(None::<i32>, None::<&str>), None);
}
