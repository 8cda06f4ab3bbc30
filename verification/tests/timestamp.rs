use edgerouter_scripts::timestamp::{local_hour_minute, now_string};

#[test]
fn now_string_is_iso_like() {
    let stamp = now_string();
    assert_eq!(stamp.len(), 19);
    assert_eq!(&stamp[4..5], "-");
    assert_eq!(&stamp[7..8], "-");
    assert_eq!(&stamp[10..11], " ");
    assert_eq!(&stamp[13..14], ":");
    assert_eq!(&stamp[16..17], ":");
}

#[test]
fn local_hour_minute_is_in_range() {
    let (hour, minute) = local_hour_minute();
    assert!(hour < 24);
    assert!(minute < 60);
}
