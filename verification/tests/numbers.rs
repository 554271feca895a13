use tiled::error::TiledError;
use tiled::events::Attribute;
use tiled::number::{get_path, get_real, get_real_or, is_path_text, is_real_text};
use tiled::parse;
use tiled::properties::PropertyValue;

#[test]
fn texts_that_write_real_numbers() {
    for text in [
        "0", "1", "-1", "+1", "1.5", "-0.25", "1.", ".5", "+.5", "-5.", "007", "1e5", "1E5",
        "1e+5", "1e-5", "1.5e10", "1.e3", ".5E-2", "inf", "-inf", "+Infinity", "INFINITY", "nan",
        "NaN", "-nan", "114.667", "3.4028235e38", "1e999",
    ] {
        assert!(is_real_text(text), "{}", text);
        assert!(text.parse::<f32>().is_ok(), "{}", text);
    }
}

#[test]
fn texts_that_write_no_real_number() {
    for text in [
        "", "+", "-", ".", "+.", "e5", ".e5", "1e", "1e+", "1e-", "1e5.0", "1.5.5", "--1", "+-1",
        " 1", "1 ", "1,5", "0x10", "in", "infinit", "infinityy", "na", "nann", "1f", "one", "१",
        "1é", "é", "1e5e5", "1_000",
    ] {
        assert!(!is_real_text(text), "{}", text);
        assert!(text.parse::<f32>().is_err(), "{}", text);
    }
}

#[test]
fn real_attributes() {
    let attrs = vec![
        Attribute { name: "x".to_string(), value: "1.5".to_string() },
        Attribute { name: "y".to_string(), value: "high".to_string() },
    ];
    assert_eq!(get_real(&attrs, "x"), Some("1.5".to_string()));
    assert_eq!(get_real(&attrs, "y"), None);
    assert_eq!(get_real(&attrs, "z"), None);
    assert_eq!(get_real_or(&attrs, "x", "0"), "1.5");
    assert_eq!(get_real_or(&attrs, "y", "0"), "0");
    assert_eq!(get_real_or(&attrs, "z", "1"), "1");
}

#[test]
fn object_position_must_be_a_number() {
    let head = "<map version=\"1.0\" orientation=\"orthogonal\" width=\"3\" height=\"2\" tilewidth=\"16\" tileheight=\"16\">";
    let malformed =
        Err(TiledError::MalformedAttributes("objects must have an x and a y number".to_string()));
    let text = format!("{}<objectgroup><object x=\"left\" y=\"2\"/></objectgroup></map>", head);
    assert_eq!(parse(text.as_bytes()), malformed);
    let text = format!("{}<objectgroup><object x=\"1\" y=\"\"/></objectgroup></map>", head);
    assert_eq!(parse(text.as_bytes()), malformed);
    let text = format!(
        "{}<objectgroup opacity=\"half\"><object x=\"1e1\" y=\"-.5\" width=\"wide\" rotation=\"90.5\"/></objectgroup></map>",
        head
    );
    let map = parse(text.as_bytes()).unwrap();
    let group = &map.object_groups[0];
    assert_eq!(group.opacity, "1");
    let object = &group.objects[0];
    assert_eq!((object.x.as_str(), object.y.as_str()), ("1e1", "-.5"));
    assert_eq!((object.width.as_str(), object.rotation.as_str()), ("0", "90.5"));
}

#[test]
fn float_property_must_be_a_number() {
    assert_eq!(
        PropertyValue::new("float", "-2.5e3".to_string()),
        Ok(PropertyValue::FloatValue("-2.5e3".to_string()))
    );
    assert_eq!(
        PropertyValue::new("float", "much".to_string()),
        Err(TiledError::Other("Improperly formatted property".to_string()))
    );
}

#[test]
fn texts_that_write_paths() {
    for text in ["0,0", "0,0 1,1", "-1.5,2e3 +.5,7. 0,0", "1,2 3,4 5,6 7,8", "inf,nan"] {
        assert!(is_path_text(text), "{}", text);
    }
    for text in [
        "", " ", "0", "0,", ",0", "0,0 ", " 0,0", "0,0  1,1", "0,0,0", "0;0", "0,0 1", "a,b",
        "0,0\n1,1", "0,0 1,é", "0, 0",
    ] {
        assert!(!is_path_text(text), "{}", text);
    }
}

#[test]
fn path_attributes() {
    let attrs = vec![
        Attribute { name: "points".to_string(), value: "0,0 4,0 4,4".to_string() },
        Attribute { name: "other".to_string(), value: "0,0 4".to_string() },
    ];
    assert_eq!(get_path(&attrs, "points"), Some("0,0 4,0 4,4".to_string()));
    assert_eq!(get_path(&attrs, "other"), None);
    assert_eq!(get_path(&attrs, "none"), None);
}

#[test]
fn path_corners_must_be_numbers() {
    let head = "<map version=\"1.0\" orientation=\"orthogonal\" width=\"3\" height=\"2\" tilewidth=\"16\" tileheight=\"16\">";
    let text = format!(
        "{}<objectgroup><object x=\"1\" y=\"2\"><polyline points=\"0,0 1\"/></object></objectgroup></map>",
        head
    );
    assert_eq!(
        parse(text.as_bytes()),
        Err(TiledError::MalformedAttributes("A polyline or polygon must have points".to_string()))
    );
}
