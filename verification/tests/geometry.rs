use niri_android_monitor::config::Config;
use niri_android_monitor::geometry::{
    fallback_geometry, query_output_geometry, read_geometry, OutputGeometry,
};

fn query(listing: &str) -> OutputGeometry {
    query_output_geometry(listing.as_bytes(), &Config::default_in(None, None))
}

fn assumed() -> OutputGeometry {
    OutputGeometry { x: 0, y: 0, width: 1920, height: 1080 }
}

#[test]
fn geometry_comes_from_the_listing() {
    let listing = r#"{"eDP-1":{"logical":{"x":1}},"Virtual-1":
        {"logical":{"x":3440,"y":-20,"width":1280,"height":720,"scale":1.0}}}"#;
    assert_eq!(query(listing), OutputGeometry { x: 3440, y: -20, width: 1280, height: 720 });
    let value: serde_json::Value = serde_json::from_str(listing).unwrap();
    let config = Config::default_in(None, None);
    assert_eq!(read_geometry(&value, &config), query(listing));
}

#[test]
fn geometry_is_assumed_where_it_is_not_listed() {
    assert_eq!(fallback_geometry(&Config::default_in(None, None)), assumed());
    for listing in [
        "",
        "not json",
        "[]",
        "{}",
        r#"{"eDP-1":{"logical":{"x":1,"y":1,"width":1,"height":1}}}"#,
        r#"{"Virtual-1":{}}"#,
        r#"{"Virtual-1":{"logical":null}}"#,
        r#"{"Virtual-1":{"logical":{}}}"#,
        r#"{"Virtual-1":{"logical":{"x":"1","y":1.5,"width":-1,"height":4294967296}}}"#,
        r#"{"Virtual-1":{"logical":{"x":2147483648,"y":18446744073709551615}}}"#,
    ] {
        assert_eq!(query(listing), assumed(), "{listing}");
    }
}

#[test]
fn each_number_of_the_geometry_stands_alone() {
    let listing = r#"{"Virtual-1":{"logical":{"x":-2147483648,"width":0}}}"#;
    assert_eq!(query(listing), OutputGeometry { x: i32::MIN, y: 0, width: 0, height: 1080 });
}
