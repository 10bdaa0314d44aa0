use orphan_sweep::dimensions::Dimensions;
use orphan_sweep::time::MediaKind;
use orphan_sweep::time::MediaTime;

#[test]
fn dimensions_new_holds_both_fields() {
    let d = Dimensions::new(1920, 1080);
    assert_eq!(d.width, 1920);
    assert_eq!(d.height, 1080);
}

#[test]
fn dimensions_default_is_zero() {
    let d = Dimensions::default();
    assert_eq!(d.width, 0);
    assert_eq!(d.height, 0);
}

#[test]
fn dimensions_pixel_tags_win_over_resolution() {
    let d = Dimensions::from_tags(Some(4000), Some(72), Some(3000), Some(72));
    assert_eq!(d.width, 4000);
    assert_eq!(d.height, 3000);
}

#[test]
fn dimensions_fall_back_to_resolution_then_zero() {
    let d = Dimensions::from_tags(None, Some(640), None, None);
    assert_eq!(d.width, 640);
    assert_eq!(d.height, 0);
}

#[test]
fn try_from_undefined_literal() {
    let t = MediaTime::try_from("Undefined".to_owned());
    assert_eq!(t, MediaTime::Undefined);
    assert_eq!(t.kind(), MediaKind::Undefined);
}

#[test]
fn try_from_rfc3339() {
    let t = MediaTime::try_from("1996-12-19T16:39:57-08:00".to_owned());
    match t {
        MediaTime::Utc(stamp, offset_seconds) => {
            assert_eq!(stamp.year, 1996);
            assert_eq!(stamp.month, 12);
            assert_eq!(stamp.day, 19);
            assert_eq!(stamp.hour, 16);
            assert_eq!(stamp.minute, 39);
            assert_eq!(stamp.second, 57);
            assert_eq!(offset_seconds, -8 * 3600);
        },
        other => panic!("expected an offset-anchored time, got {:?}", other),
    }
}

#[test]
fn try_from_naive() {
    let t = MediaTime::try_from("2023-01-02 03:04:05".to_owned());
    match t {
        MediaTime::Naive(stamp) => {
            assert_eq!(stamp.year, 2023);
            assert_eq!(stamp.month, 1);
            assert_eq!(stamp.day, 2);
            assert_eq!(stamp.hour, 3);
            assert_eq!(stamp.minute, 4);
            assert_eq!(stamp.second, 5);
        },
        other => panic!("expected a naive time, got {:?}", other),
    }
}

#[test]
fn try_from_garbage_is_undefined() {
    let t = MediaTime::try_from("not a time".to_owned());
    assert_eq!(t, MediaTime::Undefined);
}

#[test]
fn tag_pairs_first_parsing_pair_wins() {
    let pairs = vec![
        (None, None),
        (Some("2015-02-18 23:16:09".to_owned()), Some("+02:00".to_owned())),
        (Some("2020-01-01 00:00:00".to_owned()), None),
    ];
    let t = MediaTime::from_tag_pairs(&pairs);
    match t {
        MediaTime::Utc(stamp, offset_seconds) => {
            assert_eq!(stamp.year, 2015);
            assert_eq!(stamp.month, 2);
            assert_eq!(stamp.day, 18);
            assert_eq!(stamp.hour, 23);
            assert_eq!(stamp.minute, 16);
            assert_eq!(stamp.second, 9);
            assert_eq!(offset_seconds, 2 * 3600);
        },
        other => panic!("expected an offset-anchored time, got {:?}", other),
    }
}

#[test]
fn tag_pairs_time_only_is_naive() {
    let pairs = vec![(Some("2020-06-07 08:09:10".to_owned()), None)];
    let t = MediaTime::from_tag_pairs(&pairs);
    match t {
        MediaTime::Naive(stamp) => {
            assert_eq!(stamp.year, 2020);
            assert_eq!(stamp.second, 10);
        },
        other => panic!("expected a naive time, got {:?}", other),
    }
}

#[test]
fn tag_pairs_bad_offset_does_not_fall_back_to_naive() {
    // A pair whose combined parse fails is passed over entirely; the naive
    // fallback belongs to pairs with no offset value at all.
    let pairs = vec![
        (Some("2015-02-18 23:16:09".to_owned()), Some("garbage".to_owned())),
        (Some("2016-03-19 01:02:03".to_owned()), None),
    ];
    let t = MediaTime::from_tag_pairs(&pairs);
    match t {
        MediaTime::Naive(stamp) => assert_eq!(stamp.year, 2016),
        other => panic!("expected the second pair's naive time, got {:?}", other),
    }
}

#[test]
fn tag_pairs_empty_is_undefined() {
    let pairs: Vec<(Option<String>, Option<String>)> = vec![];
    assert_eq!(MediaTime::from_tag_pairs(&pairs), MediaTime::Undefined);
}

#[test]
fn media_time_default_is_undefined() {
    assert_eq!(MediaTime::default(), MediaTime::Undefined);
}
