use web_middleware::assets::{static_asset, AssetError, AssetKind, StaticAsset};
use web_middleware::date::{format_date, DateTime};
use web_middleware::size::get_display_size;
use web_middleware::util::{get_uuid, try_parse_string};

#[test]
fn display_size_in_bytes() {
    assert_eq!(get_display_size(0), "0 bytes");
    assert_eq!(get_display_size(1), "1 bytes");
    assert_eq!(get_display_size(1024), "1024 bytes");
    assert_eq!(get_display_size(-5), "-5 bytes");
}

#[test]
fn display_size_in_larger_units() {
    assert_eq!(get_display_size(1025), "1 KB");
    assert_eq!(get_display_size(1035), "1.01 KB");
    assert_eq!(get_display_size(1126), "1.1 KB");
    assert_eq!(get_display_size(1536), "1.5 KB");
    assert_eq!(get_display_size(1048576), "1024 KB");
    assert_eq!(get_display_size(1048577), "1 MB");
    assert_eq!(get_display_size(5 * 1048576 + 262144), "5.25 MB");
    assert_eq!(get_display_size(i32::MAX), "2 GB");
}

#[test]
fn date_formats_with_microseconds() {
    let d = DateTime { year: 2019, month: 3, day: 7, hour: 4, minute: 5, second: 6, micro: 123 };
    assert_eq!(format_date(&d), "2019-03-07T04:05:06.000123Z");
    let d = DateTime { year: 2020, month: 2, day: 29, hour: 23, minute: 59, second: 59, micro: 999999 };
    assert_eq!(format_date(&d), "2020-02-29T23:59:59.999999Z");
}

#[test]
fn date_formats_unusual_years() {
    let d = DateTime { year: 999, month: 12, day: 31, hour: 0, minute: 0, second: 0, micro: 0 };
    assert_eq!(format_date(&d), "0999-12-31T00:00:00.000000Z");
    let d = DateTime { year: 12345, month: 1, day: 1, hour: 0, minute: 0, second: 0, micro: 0 };
    assert_eq!(format_date(&d), "+12345-01-01T00:00:00.000000Z");
    let d = DateTime { year: -5, month: 1, day: 1, hour: 0, minute: 0, second: 0, micro: 0 };
    assert_eq!(format_date(&d), "-0005-01-01T00:00:00.000000Z");
}

#[test]
fn uuid_is_lowercase_hyphenated_v4() {
    let a = get_uuid();
    let b = get_uuid();
    assert_eq!(a.len(), 36);
    assert_ne!(a, b);
    let c: Vec<char> = a.chars().collect();
    for i in [8, 13, 18, 23] {
        assert_eq!(c[i], '-');
    }
    assert_eq!(c[14], '4');
    assert!("89ab".contains(c[19]));
    assert!(a.chars().all(|ch| ch == '-' || ch.is_ascii_digit() || ('a'..='f').contains(&ch)));
}

#[test]
fn try_parse_string_parses_or_gives_none() {
    assert_eq!(try_parse_string::<i32, ()>(Ok("42".to_string())), Some(42));
    assert_eq!(try_parse_string::<i32, ()>(Ok("x".to_string())), None);
    assert_eq!(try_parse_string::<bool, ()>(Ok("true".to_string())), Some(true));
    assert_eq!(try_parse_string::<i32, &str>(Err("missing")), None);
}

#[test]
fn static_assets_by_name() {
    assert_eq!(static_asset("md5.js"), Ok(StaticAsset::Md5Js));
    assert_eq!(static_asset("md5.js").unwrap().kind(), AssetKind::JavaScript);
    assert_eq!(static_asset("logo-gray.png").unwrap().kind(), AssetKind::Png);
    assert_eq!(static_asset("error-x.svg").unwrap().kind(), AssetKind::Svg);
    assert_eq!(static_asset("bootstrap.css").unwrap().kind(), AssetKind::Css);
    assert_eq!(static_asset("bootstrap-native-v4.js"), Ok(StaticAsset::BootstrapNativeJs));
    assert_eq!(static_asset("nope.png"), Err(AssetError::NotFound));
    assert_eq!(static_asset(""), Err(AssetError::NotFound));
}
