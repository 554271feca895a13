use tiled::animation::Frame;
use tiled::attrs::{find_attr, get_flag_or, get_i32, get_string, get_string_or, get_u32, get_u32_or};
use tiled::colour::Colour;
use tiled::error::{ParseTileError, TiledError};
use tiled::events::Attribute;
use tiled::orientation::Orientation;
use tiled::properties::{Properties, PropertyValue};
use tiled::text::{parse_bool, parse_i32, parse_u32, str_eq};

fn attr(name: &str, value: &str) -> Attribute {
    Attribute { name: name.to_string(), value: value.to_string() }
}

fn frame_attrs(frame: &Frame) -> Vec<Attribute> {
    vec![
        attr("tileid", &format!("{}", frame.tile_id)),
        attr("duration", &format!("{}", frame.duration)),
    ]
}

#[test]
fn frame_round_trips_through_its_attributes() {
    for (tile_id, duration) in
        [(0u32, 0u32), (1, 100), (7, 250), (4294967295, 1), (12, 4294967295), (1000000, 999)]
    {
        let frame = Frame { tile_id, duration };
        assert_eq!(Frame::new(&frame_attrs(&frame)), Ok(frame));
    }
}

#[test]
fn frame_needs_tileid_and_duration() {
    let malformed =
        Err(TiledError::MalformedAttributes("A frame must have tileid and duration".to_string()));
    assert_eq!(Frame::new(&vec![attr("tileid", "1")]), malformed);
    assert_eq!(Frame::new(&vec![attr("duration", "1")]), malformed);
    assert_eq!(Frame::new(&vec![]), malformed);
    assert_eq!(Frame::new(&vec![attr("tileid", "x"), attr("duration", "1")]), malformed);
    assert_eq!(Frame::new(&vec![attr("tileid", "1"), attr("duration", "-1")]), malformed);
    assert_eq!(Frame::new(&vec![attr("tileid", "4294967296"), attr("duration", "1")]), malformed);
    assert_eq!(
        Frame::new(&vec![attr("other", "9"), attr("duration", "20"), attr("tileid", "3")]),
        Ok(Frame { tile_id: 3, duration: 20 })
    );
}

#[test]
fn orientation_tokens_round_trip() {
    let all = [
        (Orientation::Orthogonal, "orthogonal"),
        (Orientation::Isometric, "isometric"),
        (Orientation::Staggered, "staggered"),
        (Orientation::Hexagonal, "hexagonal"),
    ];
    for (orientation, token) in all {
        assert_eq!(Orientation::from_str(token), Ok(orientation));
        assert_eq!(orientation.to_string(), token);
        assert_eq!(Orientation::from_str(&orientation.to_string()), Ok(orientation));
    }
}

#[test]
fn orientation_refuses_other_text() {
    for text in ["", "Orthogonal", "ORTHOGONAL", "orthogonal ", " isometric", "hex", "staggeredx"] {
        assert_eq!(Orientation::from_str(text), Err(ParseTileError::OrientationError));
    }
}

#[test]
fn colour_reads_six_or_eight_digits() {
    assert_eq!(
        Colour::from_str("#ff8000"),
        Ok(Colour { alpha: 255, red: 255, green: 128, blue: 0 })
    );
    assert_eq!(
        Colour::from_str("#80FF00aB"),
        Ok(Colour { alpha: 128, red: 255, green: 0, blue: 171 })
    );
    assert_eq!(Colour::from_str("#000000"), Ok(Colour { alpha: 255, red: 0, green: 0, blue: 0 }));
}

#[test]
fn colour_refuses_other_text() {
    for text in ["", "#", "ff8000", "#ff800", "#ff80000", "#ff80zz", "#ff8000ff0", "#ff80é0", "é"] {
        assert_eq!(Colour::from_str(text), Err(ParseTileError::ColourError));
    }
}

#[test]
fn unsigned_numbers() {
    assert_eq!(parse_u32("0"), Some(0));
    assert_eq!(parse_u32("42"), Some(42));
    assert_eq!(parse_u32("+42"), Some(42));
    assert_eq!(parse_u32("007"), Some(7));
    assert_eq!(parse_u32("4294967295"), Some(4294967295));
    assert_eq!(parse_u32("4294967296"), None);
    assert_eq!(parse_u32("00000000000000000000000012"), Some(12));
    assert_eq!(parse_u32("99999999999999999999"), None);
    for text in ["", "+", "-1", "-0", "1.5", " 1", "1 ", "1e3", "x", "१२"] {
        assert_eq!(parse_u32(text), None);
    }
}

#[test]
fn signed_numbers() {
    assert_eq!(parse_i32("0"), Some(0));
    assert_eq!(parse_i32("-0"), Some(0));
    assert_eq!(parse_i32("-17"), Some(-17));
    assert_eq!(parse_i32("+17"), Some(17));
    assert_eq!(parse_i32("2147483647"), Some(2147483647));
    assert_eq!(parse_i32("2147483648"), None);
    assert_eq!(parse_i32("-2147483648"), Some(-2147483648));
    assert_eq!(parse_i32("-2147483649"), None);
    for text in ["", "-", "+", "--1", "+-1", "1.0", "é"] {
        assert_eq!(parse_i32(text), None);
    }
}

#[test]
fn booleans_and_string_equality() {
    assert_eq!(parse_bool("true"), Some(true));
    assert_eq!(parse_bool("false"), Some(false));
    assert_eq!(parse_bool("True"), None);
    assert_eq!(parse_bool("1"), None);
    assert!(str_eq("", ""));
    assert!(str_eq("tileset", "tileset"));
    assert!(str_eq("héllo", "héllo"));
    assert!(!str_eq("tileset", "tilesets"));
    assert!(!str_eq("tileset", "tileseT"));
    assert!(!str_eq("a", ""));
}

#[test]
fn attributes_are_found_by_name_and_the_last_counts() {
    let attrs = vec![attr("width", "3"), attr("name", "a"), attr("width", "5"), attr("n", "-2")];
    assert_eq!(find_attr(&attrs, "name").map(|s| s.as_str()), Some("a"));
    assert_eq!(find_attr(&attrs, "missing"), None);
    assert_eq!(get_u32(&attrs, "width"), Some(5));
    assert_eq!(get_u32(&attrs, "name"), None);
    assert_eq!(get_u32(&attrs, "n"), None);
    assert_eq!(get_i32(&attrs, "n"), Some(-2));
    assert_eq!(get_string(&attrs, "name"), Some("a".to_string()));
    assert_eq!(get_string(&attrs, "x"), None);
    assert_eq!(get_string_or(&attrs, "x", "dflt"), "dflt");
    assert_eq!(get_string_or(&attrs, "name", "dflt"), "a");
    assert_eq!(get_u32_or(&attrs, "width", 9), 5);
    assert_eq!(get_u32_or(&attrs, "height", 9), 9);
    assert_eq!(get_u32_or(&attrs, "name", 9), 9);
}

#[test]
fn a_later_attribute_that_does_not_convert_hides_an_earlier_one() {
    let attrs = vec![attr("width", "3"), attr("width", "wide")];
    assert_eq!(get_u32(&attrs, "width"), None);
}

#[test]
fn switches_are_on_for_one() {
    let attrs = vec![attr("a", "1"), attr("b", "0"), attr("c", "yes"), attr("d", "2")];
    assert!(get_flag_or(&attrs, "a", false));
    assert!(!get_flag_or(&attrs, "b", true));
    assert!(get_flag_or(&attrs, "c", true));
    assert!(!get_flag_or(&attrs, "c", false));
    assert!(!get_flag_or(&attrs, "d", true));
    assert!(get_flag_or(&attrs, "missing", true));
}

#[test]
fn property_values_by_type() {
    assert_eq!(PropertyValue::new("bool", "true".to_string()), Ok(PropertyValue::BoolValue(true)));
    assert_eq!(PropertyValue::new("int", "-12".to_string()), Ok(PropertyValue::IntValue(-12)));
    assert_eq!(
        PropertyValue::new("float", "1.5".to_string()),
        Ok(PropertyValue::FloatValue("1.5".to_string()))
    );
    assert_eq!(
        PropertyValue::new("color", "#ff102030".to_string()),
        Ok(PropertyValue::ColorValue(Colour { alpha: 255, red: 16, green: 32, blue: 48 }))
    );
    assert_eq!(
        PropertyValue::new("string", "hello".to_string()),
        Ok(PropertyValue::StringValue("hello".to_string()))
    );
    assert_eq!(
        PropertyValue::new("file", "a/b.png".to_string()),
        Ok(PropertyValue::FileValue("a/b.png".to_string()))
    );
    let bad = Err(TiledError::Other("Improperly formatted property".to_string()));
    assert_eq!(PropertyValue::new("bool", "1".to_string()), bad);
    assert_eq!(PropertyValue::new("int", "1.5".to_string()), bad);
    assert_eq!(PropertyValue::new("color", "red".to_string()), bad);
    assert_eq!(
        PropertyValue::new("object", "1".to_string()),
        Err(TiledError::Other("Unknown property type".to_string()))
    );
}

#[test]
fn properties_keep_the_last_value_of_a_name() {
    let mut properties = Properties::new();
    assert_eq!(properties.get("a"), None);
    properties.insert("a".to_string(), PropertyValue::IntValue(1));
    properties.insert("b".to_string(), PropertyValue::BoolValue(false));
    properties.insert("a".to_string(), PropertyValue::IntValue(2));
    assert_eq!(properties.get("a"), Some(&PropertyValue::IntValue(2)));
    assert_eq!(properties.get("b"), Some(&PropertyValue::BoolValue(false)));
    assert_eq!(properties.get("c"), None);
}

#[test]
fn error_messages_can_be_read() {
    assert_eq!(TiledError::Other("x".to_string()).message(), "x");
    assert_eq!(TiledError::PrematureEnd("y".to_string()).message(), "y");
    assert_eq!(TiledError::MalformedAttributes("z".to_string()).message(), "z");
}
