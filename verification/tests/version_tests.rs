use core::cmp::Ordering;
use osc::version::Version;

#[test]
fn test_version() {
    let version = Version::parse("1.2.3.4").unwrap();

    assert_eq!(version.major, 1);
    assert_eq!(version.minor, 2);
    assert_eq!(version.patch, 3);
    assert_eq!(version.tweak, 4);
}

fn test_version_cmp(a: &str, b: &str, ordering: Ordering) {
    let a = Version::parse(a).unwrap();
    let b = Version::parse(b).unwrap();

    assert_eq!(a.compare(&b), ordering);
}

#[test]
fn test_version_cmp_major() {
    test_version_cmp("1.0.0.0", "1.0.0.0", Ordering::Equal);
    test_version_cmp("0.1.0.0", "0.1.0.0", Ordering::Equal);
    test_version_cmp("0.0.1.0", "0.0.1.0", Ordering::Equal);
    test_version_cmp("0.0.0.1", "0.0.0.1", Ordering::Equal);

    test_version_cmp("1.0.0.0", "1.0.0.1", Ordering::Less);
    test_version_cmp("1.0.0.0", "1.0.1.0", Ordering::Less);
    test_version_cmp("1.0.0.0", "1.1.0.0", Ordering::Less);

    test_version_cmp("1.0.0.1", "1.0.0.0", Ordering::Greater);
    test_version_cmp("1.0.1.0", "1.0.0.0", Ordering::Greater);
    test_version_cmp("1.1.0.0", "1.0.0.0", Ordering::Greater);
}

#[test]
fn version_short_forms_zero_fill() {
    let v = Version::parse("1.2").unwrap();
    assert_eq!((v.major, v.minor, v.patch, v.tweak), (1, 2, 0, 0));
    let v = Version::parse("7").unwrap();
    assert_eq!((v.major, v.minor, v.patch, v.tweak), (7, 0, 0, 0));
    let v = Version::parse("").unwrap();
    assert_eq!((v.major, v.minor, v.patch, v.tweak), (0, 0, 0, 0));
}

#[test]
fn version_too_many_segments_rejected() {
    assert!(Version::parse("1.2.3.4.5").is_none());
}

#[test]
fn version_bad_segments_read_as_zero() {
    let v = Version::parse("x.2").unwrap();
    assert_eq!((v.major, v.minor, v.patch, v.tweak), (0, 2, 0, 0));
    // a segment beyond the unsigned 32-bit range also reads as zero
    let v = Version::parse("4294967296.1").unwrap();
    assert_eq!((v.major, v.minor, v.patch, v.tweak), (0, 1, 0, 0));
    let v = Version::parse("4294967295.1").unwrap();
    assert_eq!((v.major, v.minor, v.patch, v.tweak), (4294967295, 1, 0, 0));
}

#[test]
fn version_segment_accepts_one_leading_plus() {
    // the standard unsigned parse accepts one leading plus sign
    let v = Version::parse("+1.2").unwrap();
    assert_eq!((v.major, v.minor, v.patch, v.tweak), (1, 2, 0, 0));
    // a doubled sign fails the parse and reads as zero
    let v = Version::parse("++1").unwrap();
    assert_eq!(v.major, 0);
}

#[test]
fn version_formats_with_marker() {
    let v = Version::parse("1.2.3.4").unwrap();
    assert_eq!(v.to_text(), "v1.2.3.4");
    let v = Version::parse("1.2").unwrap();
    assert_eq!(v.to_text(), "v1.2.0.0");
}

#[test]
fn version_round_trips_through_text() {
    let v = Version::parse("10.20.30.40").unwrap();
    let text = v.to_text();
    let reparsed = Version::parse(&text[1..]).unwrap();
    assert_eq!(v, reparsed);
}
