use std::cell::RefCell;
use tiled::animation::Frame;
use tiled::builder::Progress;
use tiled::colour::Colour;
use tiled::error::TiledError;
use tiled::events::{find_root, read_events, skip_to_close, Attribute, XmlEvent};
use tiled::map::TileMap;
use tiled::tileset::{Declared, Tileset};
use tiled::objects::ObjectShape;
use tiled::orientation::Orientation;
use tiled::properties::PropertyValue;
use tiled::{
    parse, parse_events, parse_events_with_file_loader, parse_events_with_path, parse_tileset,
    parse_with_file_loader, parse_with_path,
};

const HEAD: &str = "<map version=\"1.0\" orientation=\"orthogonal\" width=\"3\" height=\"2\" tilewidth=\"16\" tileheight=\"16\">";

const NO_LOCATION: &str =
    "Maps with external tilesets must know their file location.  See parse_with_path(Path).";

const TILESET_FILE: &[u8] = b"<?xml version=\"1.0\" encoding=\"UTF-8\"?>\n<tileset name=\"outside\" tilewidth=\"8\" tileheight=\"4\" spacing=\"1\" margin=\"2\" tilecount=\"6\">\n <image source=\"outside.png\" width=\"64\" height=\"32\"/>\n</tileset>\n";

fn document(body: &str) -> Vec<u8> {
    format!("<?xml version=\"1.0\" encoding=\"UTF-8\"?>\n{}\n{}\n</map>\n", HEAD, body).into_bytes()
}

fn start(name: &str, attributes: &[(&str, &str)]) -> XmlEvent {
    XmlEvent::StartElement {
        name: name.to_string(),
        attributes: attributes
            .iter()
            .map(|(n, v)| Attribute { name: n.to_string(), value: v.to_string() })
            .collect(),
    }
}

fn end(name: &str) -> XmlEvent {
    XmlEvent::EndElement { name: name.to_string() }
}

fn map_start() -> XmlEvent {
    start(
        "map",
        &[
            ("version", "1.0"),
            ("orientation", "isometric"),
            ("width", "3"),
            ("height", "2"),
            ("tilewidth", "16"),
            ("tileheight", "16"),
        ],
    )
}

#[test]
fn events_of_a_small_document() {
    let events = read_events(b"<a x=\"1\" p:y=\"two\" xmlns:p=\"urn:p\"><p:b>text &amp; more</p:b><!-- c --></a>");
    assert_eq!(
        events,
        vec![
            XmlEvent::Other,
            start("a", &[("x", "1"), ("y", "two")]),
            start("b", &[]),
            XmlEvent::Characters("text & more".to_string()),
            end("b"),
            end("a"),
            XmlEvent::EndDocument,
        ]
    );
}

#[test]
fn events_end_with_the_first_failure() {
    let events = read_events(b"<a><b></a>");
    assert_eq!(events.len(), 4);
    assert_eq!(events[1], start("a", &[]));
    assert_eq!(events[2], start("b", &[]));
    assert!(matches!(events[3], XmlEvent::Failure(_)));
    let nothing = read_events(b"");
    assert_eq!(nothing.len(), 1);
    assert!(matches!(nothing[0], XmlEvent::Failure(_)));
}

#[test]
fn minimal_map() {
    let map = parse(&document("")).unwrap();
    assert_eq!(map.version, "1.0");
    assert_eq!(map.orientation, Orientation::Orthogonal);
    assert_eq!((map.width, map.height, map.tile_width, map.tile_height), (3, 2, 16, 16));
    assert!(map.tilesets.is_empty());
    assert!(map.layers.is_empty());
    assert!(map.image_layers.is_empty());
    assert!(map.object_groups.is_empty());
    assert_eq!(map.background_colour, None);
    assert!(!map.infinite);
}

#[test]
fn map_without_tilesets_is_a_map() {
    let map = parse(&document("<layer name=\"a\"><data encoding=\"csv\">0,0,0,0,0,0</data></layer>"))
        .unwrap();
    assert!(map.tilesets.is_empty());
    assert_eq!(map.layers.len(), 1);
    for gid in [0u32, 1, 5, 1000] {
        assert!(map.get_tileset_by_gid(gid).is_none());
    }
}

#[test]
fn optional_map_attributes() {
    let text = "<map version=\"1.4\" orientation=\"hexagonal\" width=\"1\" height=\"1\" tilewidth=\"2\" tileheight=\"3\" backgroundcolor=\"#102030\" infinite=\"1\" nextobjectid=\"7\"></map>";
    let map = parse(text.as_bytes()).unwrap();
    assert_eq!(map.orientation, Orientation::Hexagonal);
    assert_eq!(map.background_colour, Some(Colour { alpha: 255, red: 16, green: 32, blue: 48 }));
    assert!(map.infinite);
    let text = "<map version=\"1.4\" orientation=\"staggered\" width=\"1\" height=\"1\" tilewidth=\"2\" tileheight=\"3\" backgroundcolor=\"blue\" infinite=\"0\"/>";
    let map = parse(text.as_bytes()).unwrap();
    assert_eq!(map.orientation, Orientation::Staggered);
    assert_eq!(map.background_colour, None);
    assert!(!map.infinite);
}

#[test]
fn map_needs_every_required_attribute() {
    let all = [
        ("version", "1.0"),
        ("orientation", "orthogonal"),
        ("width", "3"),
        ("height", "2"),
        ("tilewidth", "16"),
        ("tileheight", "16"),
    ];
    let malformed = Err(TiledError::MalformedAttributes(
        "map must have a version, width and height with correct types".to_string(),
    ));
    for missing in 0..all.len() {
        let mut attributes: Vec<(&str, &str)> = vec![("backgroundcolor", "#ffffff"), ("infinite", "0")];
        for (i, pair) in all.iter().enumerate() {
            if i != missing {
                attributes.push(*pair);
            }
        }
        let events = vec![XmlEvent::Other, start("map", &attributes), end("map"), XmlEvent::EndDocument];
        assert_eq!(parse_events(&events), malformed);
    }
    let mut attributes = all.to_vec();
    attributes.push(("backgroundcolor", "#ffffff"));
    let events = vec![XmlEvent::Other, start("map", &attributes), end("map"), XmlEvent::EndDocument];
    assert!(parse_events(&events).is_ok());
}

#[test]
fn map_attributes_must_convert() {
    let malformed = Err(TiledError::MalformedAttributes(
        "map must have a version, width and height with correct types".to_string(),
    ));
    for text in [
        "<map version=\"1.0\" orientation=\"flat\" width=\"3\" height=\"2\" tilewidth=\"16\" tileheight=\"16\"/>",
        "<map version=\"1.0\" orientation=\"orthogonal\" width=\"-3\" height=\"2\" tilewidth=\"16\" tileheight=\"16\"/>",
        "<map version=\"1.0\" orientation=\"orthogonal\" width=\"3\" height=\"2.5\" tilewidth=\"16\" tileheight=\"16\"/>",
        "<map version=\"1.0\" orientation=\"orthogonal\" width=\"3\" height=\"2\" tilewidth=\"\" tileheight=\"16\"/>",
        "<map version=\"1.0\" orientation=\"orthogonal\" width=\"3\" height=\"2\" tilewidth=\"16\" tileheight=\"4294967296\"/>",
    ] {
        assert_eq!(parse(text.as_bytes()), malformed);
    }
}

#[test]
fn layer_indices_follow_the_document() {
    let body = "<layer name=\"a\"/><imagelayer name=\"b\"/><objectgroup name=\"c\"/><unknown/>\
<layer name=\"d\"/><properties/><objectgroup name=\"e\"/><imagelayer name=\"f\"/><layer name=\"g\"/>";
    let map = parse(&document(body)).unwrap();
    let layers: Vec<(&str, u32)> =
        map.layers.iter().map(|l| (l.name.as_str(), l.layer_index)).collect();
    let images: Vec<(&str, u32)> =
        map.image_layers.iter().map(|l| (l.name.as_str(), l.layer_index)).collect();
    let groups: Vec<(&str, Option<u32>)> =
        map.object_groups.iter().map(|l| (l.name.as_str(), l.layer_index)).collect();
    assert_eq!(layers, vec![("a", 0), ("d", 3), ("g", 6)]);
    assert_eq!(images, vec![("b", 1), ("f", 5)]);
    assert_eq!(groups, vec![("c", Some(2)), ("e", Some(4))]);
}

#[test]
fn external_tileset_without_location_fails() {
    let body = "<tileset firstgid=\"1\" source=\"outside.tsx\"/><layer name=\"a\"/>";
    assert_eq!(parse(&document(body)), Err(TiledError::Other(NO_LOCATION.to_string())));
    let events = vec![
        XmlEvent::Other,
        map_start(),
        start("tileset", &[("firstgid", "1"), ("source", "outside.tsx")]),
        end("tileset"),
        end("map"),
        XmlEvent::EndDocument,
    ];
    assert_eq!(parse_events(&events), Err(TiledError::Other(NO_LOCATION.to_string())));
}

#[test]
fn an_error_before_the_reference_comes_first() {
    let body = "<layer/><tileset firstgid=\"1\" source=\"outside.tsx\"/>";
    assert_eq!(
        parse(&document(body)),
        Err(TiledError::MalformedAttributes("layer must have a name".to_string()))
    );
}

#[test]
fn loader_supplies_external_tilesets() {
    let asked: RefCell<Vec<String>> = RefCell::new(Vec::new());
    let body = "<tileset firstgid=\"1\" name=\"inside\" tilewidth=\"16\" tileheight=\"16\"/>\
<layer name=\"a\"/>\
<tileset firstgid=\"50\" source=\"outside.tsx\"/>\
<layer name=\"b\"/>\
<tileset firstgid=\"100\" source=\"sub/other.tsx\"/>";
    let map = parse_with_file_loader(&document(body), |name: &str| {
        asked.borrow_mut().push(name.to_string());
        Ok(TILESET_FILE.to_vec())
    })
    .unwrap();
    assert_eq!(*asked.borrow(), vec!["outside.tsx".to_string(), "sub/other.tsx".to_string()]);
    let firsts: Vec<(u32, &str)> =
        map.tilesets.iter().map(|t| (t.first_gid, t.name.as_str())).collect();
    assert_eq!(firsts, vec![(1, "inside"), (50, "outside"), (100, "outside")]);
    let outside = &map.tilesets[1];
    assert_eq!(
        (outside.tile_width, outside.tile_height, outside.spacing, outside.margin, outside.tilecount),
        (8, 4, 1, 2, Some(6))
    );
    assert_eq!(outside.images.len(), 1);
    assert_eq!(outside.images[0].source, "outside.png");
    assert_eq!(map.layers.iter().map(|l| l.layer_index).collect::<Vec<u32>>(), vec![0, 1]);
    assert_eq!(map.get_tileset_by_gid(49).map(|t| t.first_gid), Some(1));
    assert_eq!(map.get_tileset_by_gid(99).map(|t| t.first_gid), Some(50));
    // 64 / (8 + 1) = 7 columns; local index 8 is column 1 of row 1.
    assert_eq!(map.get_tile_rectangle_by_id(58), Some((2 + 9, 2 + 5, 8, 4)));
}

#[test]
fn loader_is_not_asked_without_references() {
    let mut calls = 0;
    let map = parse_with_file_loader(&document("<layer name=\"a\"/>"), |_name: &str| {
        calls += 1;
        Err(TiledError::Other("never".to_string()))
    });
    assert!(map.is_ok());
    assert_eq!(calls, 0);
}

#[test]
fn loader_error_is_passed_on() {
    let body = "<tileset firstgid=\"1\" source=\"gone.tsx\"/><tileset firstgid=\"9\" source=\"next.tsx\"/>";
    let mut calls = 0;
    let result = parse_with_file_loader(&document(body), |name: &str| {
        calls += 1;
        Err(TiledError::Other(format!("cannot read {}", name)))
    });
    assert_eq!(result, Err(TiledError::Other("cannot read gone.tsx".to_string())));
    assert_eq!(calls, 1);
}

#[test]
fn loaded_bytes_must_be_a_tileset_file() {
    let body = "<tileset firstgid=\"1\" source=\"a.tsx\"/>";
    let result = parse_with_file_loader(&document(body), |_: &str| Ok(b"<tileset name=\"x\"/>".to_vec()));
    assert_eq!(
        result,
        Err(TiledError::MalformedAttributes(
            "tileset must have a name, tile width and height with correct types".to_string()
        ))
    );
    let result = parse_with_file_loader(&document(body), |_: &str| Ok(b"<other/>".to_vec()));
    assert_eq!(
        result,
        Err(TiledError::PrematureEnd("Tileset Document ended before map was parsed".to_string()))
    );
    let result = parse_with_file_loader(&document(body), |_: &str| Ok(b"no xml".to_vec()));
    assert!(matches!(result, Err(TiledError::XmlDecodingError(_))));
}

#[test]
fn path_is_handed_on_with_the_name_of_each_file() {
    let asked: RefCell<Vec<(String, String)>> = RefCell::new(Vec::new());
    let body = "<tileset firstgid=\"1\" source=\"outside.tsx\"/><layer name=\"a\"/>\
<tileset firstgid=\"9\" source=\"sub/other.tsx\"/>";
    let map = parse_with_path(&document(body), "maps/level1/map.tmx", |place: &str, name: &str| {
        asked.borrow_mut().push((place.to_string(), name.to_string()));
        Ok(TILESET_FILE.to_vec())
    })
    .unwrap();
    assert_eq!(
        *asked.borrow(),
        vec![
            ("maps/level1/map.tmx".to_string(), "outside.tsx".to_string()),
            ("maps/level1/map.tmx".to_string(), "sub/other.tsx".to_string()),
        ]
    );
    let firsts: Vec<(u32, &str)> =
        map.tilesets.iter().map(|t| (t.first_gid, t.name.as_str())).collect();
    assert_eq!(firsts, vec![(1, "outside"), (9, "outside")]);
}

#[test]
fn path_is_not_used_without_references() {
    let mut calls = 0;
    let with_path = parse_with_path(&document("<layer name=\"a\"/>"), "no/such/map.tmx", |_, _| {
        calls += 1;
        Err(TiledError::Other("never".to_string()))
    });
    assert_eq!(with_path, parse(&document("<layer name=\"a\"/>")));
    assert!(with_path.is_ok());
    assert_eq!(calls, 0);
}

#[test]
fn path_reader_error_is_passed_on() {
    let body = "<tileset firstgid=\"1\" source=\"gone.tsx\"/>";
    let result = parse_with_path(&document(body), "dir/map.tmx", |place: &str, name: &str| {
        Err(TiledError::Other(format!("cannot read {} beside {}", name, place)))
    });
    assert_eq!(
        result,
        Err(TiledError::Other("cannot read gone.tsx beside dir/map.tmx".to_string()))
    );
}

#[test]
fn events_with_path_and_with_loader() {
    let events = vec![
        XmlEvent::Other,
        map_start(),
        start("tileset", &[("firstgid", "7"), ("source", "t.tsx")]),
        end("tileset"),
        end("map"),
        XmlEvent::EndDocument,
    ];
    let asked: RefCell<Vec<(String, String)>> = RefCell::new(Vec::new());
    let map = parse_events_with_path(&events, "dir/map.tmx", |place: &str, name: &str| {
        asked.borrow_mut().push((place.to_string(), name.to_string()));
        Ok(TILESET_FILE.to_vec())
    })
    .unwrap();
    assert_eq!(*asked.borrow(), vec![("dir/map.tmx".to_string(), "t.tsx".to_string())]);
    assert_eq!(map.tilesets[0].first_gid, 7);
    assert_eq!(map.orientation, Orientation::Isometric);
    let named: RefCell<Vec<String>> = RefCell::new(Vec::new());
    let map = parse_events_with_file_loader(&events, |name: &str| {
        named.borrow_mut().push(name.to_string());
        Ok(TILESET_FILE.to_vec())
    })
    .unwrap();
    assert_eq!(*named.borrow(), vec!["t.tsx".to_string()]);
    assert_eq!(map.tilesets[0].first_gid, 7);
}

#[test]
fn standalone_tileset_file() {
    let tileset = parse_tileset(TILESET_FILE, 42).unwrap();
    assert_eq!(tileset.first_gid, 42);
    assert_eq!(tileset.name, "outside");
    assert_eq!(tileset.images[0].width, 64);
    assert_eq!(tileset.images[0].height, 32);
    assert_eq!(
        parse_tileset(b"<tileset name=\"x\" tilewidth=\"1\"/>", 1),
        Err(TiledError::MalformedAttributes(
            "tileset must have a name, tile width and height with correct types".to_string()
        ))
    );
}

#[test]
fn embedded_tileset_with_tiles() {
    let body = "<tileset firstgid=\"1\" name=\"inside\" tilewidth=\"16\" tileheight=\"16\" spacing=\"2\">\
<properties><property name=\"kind\" value=\"ground\"/></properties>\
<image source=\"inside.png\" trans=\"#ff00ff\" width=\"128\" height=\"64\"/>\
<tile id=\"3\" type=\"water\" probability=\"0.5\">\
<properties><property name=\"deep\" type=\"bool\" value=\"true\"/></properties>\
<animation><frame tileid=\"3\" duration=\"100\"/><frame tileid=\"4\" duration=\"150\"/></animation>\
<objectgroup><object id=\"1\" x=\"0\" y=\"0\" width=\"16\" height=\"16\"/></objectgroup>\
</tile>\
<tile id=\"5\"><image source=\"five.png\" width=\"16\" height=\"16\"/></tile>\
</tileset>";
    let map = parse(&document(body)).unwrap();
    assert_eq!(map.tilesets.len(), 1);
    let set = &map.tilesets[0];
    assert_eq!((set.first_gid, set.spacing, set.margin, set.tilecount), (1, 2, 0, None));
    assert_eq!(set.properties.get("kind"), Some(&PropertyValue::StringValue("ground".to_string())));
    assert_eq!(set.images.len(), 1);
    assert_eq!(
        set.images[0].transparent_colour,
        Some(Colour { alpha: 255, red: 255, green: 0, blue: 255 })
    );
    assert_eq!(set.tiles.len(), 2);
    let water = &set.tiles[0];
    assert_eq!(water.id, 3);
    assert_eq!(water.tile_type, Some("water".to_string()));
    assert_eq!(water.probability, "0.5");
    assert_eq!(water.properties.get("deep"), Some(&PropertyValue::BoolValue(true)));
    assert_eq!(
        water.animation,
        Some(vec![Frame { tile_id: 3, duration: 100 }, Frame { tile_id: 4, duration: 150 }])
    );
    let group = water.objectgroup.as_ref().unwrap();
    assert_eq!(group.layer_index, None);
    assert_eq!(group.objects.len(), 1);
    let five = &set.tiles[1];
    assert_eq!((five.id, five.images.len()), (5, 1));
    assert_eq!(five.probability, "1");
    assert_eq!(five.animation, None);
}

#[test]
fn malformed_children_fail_the_map() {
    let cases = [
        ("<tileset name=\"x\" tilewidth=\"1\" tileheight=\"1\"/>", "tileset must have a firstgid, and a source or a name, tile width and height with correct types"),
        ("<tileset firstgid=\"1\" name=\"x\"/>", "tileset must have a firstgid, and a source or a name, tile width and height with correct types"),
        ("<layer/>", "layer must have a name"),
        ("<imagelayer/>", "layer must have a name"),
        ("<imagelayer name=\"i\"><image source=\"a.png\"/></imagelayer>", "image must have a source, width and height with correct types"),
        ("<objectgroup><object x=\"1\"/></objectgroup>", "objects must have an x and a y number"),
        ("<objectgroup><object x=\"1\" y=\"2\"><polygon/></object></objectgroup>", "A polyline or polygon must have points"),
        ("<properties><property value=\"v\"/></properties>", "property must have a name and a value"),
        ("<properties><property name=\"n\"/></properties>", "property is missing a value"),
        ("<tileset firstgid=\"1\" name=\"x\" tilewidth=\"1\" tileheight=\"1\"><tile/></tileset>", "tile must have an id with the correct type"),
        ("<tileset firstgid=\"1\" name=\"x\" tilewidth=\"1\" tileheight=\"1\"><tile id=\"1\"><animation><frame tileid=\"1\"/></animation></tile></tileset>", "A frame must have tileid and duration"),
    ];
    for (body, message) in cases {
        assert_eq!(
            parse(&document(body)),
            Err(TiledError::MalformedAttributes(message.to_string())),
            "{}",
            body
        );
    }
}

#[test]
fn objects_and_their_shapes() {
    let body = "<objectgroup name=\"things\" color=\"#a0b0c0\" opacity=\"0.5\" visible=\"0\">\
<properties><property name=\"n\" type=\"int\" value=\"3\"/></properties>\
<object id=\"1\" name=\"box\" type=\"crate\" x=\"1.5\" y=\"2\" width=\"10\" height=\"20.25\" rotation=\"45\"/>\
<object id=\"2\" gid=\"17\" x=\"3\" y=\"4\" visible=\"0\"><ellipse/></object>\
<object id=\"3\" x=\"5\" y=\"6\"><polyline points=\"0,0 1,1 2,0\"/></object>\
<object id=\"4\" x=\"7\" y=\"8\"><polygon points=\"0,0 4,0 4,4\"/><properties><property name=\"p\">long\ntext</property></properties></object>\
<object id=\"5\" x=\"9\" y=\"10\"><point/></object>\
</objectgroup>";
    let map = parse(&document(body)).unwrap();
    let group = &map.object_groups[0];
    assert_eq!(group.name, "things");
    assert_eq!(group.opacity, "0.5");
    assert!(!group.visible);
    assert_eq!(group.colour, Some(Colour { alpha: 255, red: 160, green: 176, blue: 192 }));
    assert_eq!(group.layer_index, Some(0));
    assert_eq!(group.properties.get("n"), Some(&PropertyValue::IntValue(3)));
    let shapes: Vec<&ObjectShape> = group.objects.iter().map(|o| &o.shape).collect();
    assert_eq!(
        shapes,
        vec![
            &ObjectShape::Rect,
            &ObjectShape::Ellipse,
            &ObjectShape::Polyline { points: "0,0 1,1 2,0".to_string() },
            &ObjectShape::Polygon { points: "0,0 4,0 4,4".to_string() },
            &ObjectShape::Point,
        ]
    );
    let first = &group.objects[0];
    assert_eq!((first.id, first.gid, first.visible), (1, 0, true));
    assert_eq!((first.name.as_str(), first.obj_type.as_str()), ("box", "crate"));
    assert_eq!((first.x.as_str(), first.y.as_str()), ("1.5", "2"));
    assert_eq!((first.width.as_str(), first.height.as_str()), ("10", "20.25"));
    assert_eq!(first.rotation, "45");
    let second = &group.objects[1];
    assert_eq!((second.id, second.gid, second.visible), (2, 17, false));
    assert_eq!((second.width.as_str(), second.rotation.as_str()), ("0", "0"));
    assert_eq!(
        group.objects[3].properties.get("p"),
        Some(&PropertyValue::StringValue("long\ntext".to_string()))
    );
}

#[test]
fn image_layer_and_layer_attributes() {
    let body = "<imagelayer name=\"sky\" opacity=\"0.25\" offsetx=\"4\" offsety=\"-8\" visible=\"1\">\
<image source=\"sky.png\" width=\"320\" height=\"200\"/>\
<properties><property name=\"far\" type=\"float\" value=\"2.5\"/></properties>\
</imagelayer>\
<layer name=\"ground\" visible=\"0\" opacity=\"0.75\"><properties><property name=\"solid\" type=\"bool\" value=\"false\"/></properties></layer>";
    let map = parse(&document(body)).unwrap();
    let sky = &map.image_layers[0];
    assert_eq!((sky.name.as_str(), sky.opacity.as_str(), sky.visible), ("sky", "0.25", true));
    assert_eq!((sky.offset_x.as_str(), sky.offset_y.as_str()), ("4", "-8"));
    assert_eq!(sky.layer_index, 0);
    let image = sky.image.as_ref().unwrap();
    assert_eq!((image.source.as_str(), image.width, image.height), ("sky.png", 320, 200));
    assert_eq!(sky.properties.get("far"), Some(&PropertyValue::FloatValue("2.5".to_string())));
    let ground = &map.layers[0];
    assert_eq!((ground.name.as_str(), ground.opacity.as_str(), ground.visible), ("ground", "0.75", false));
    assert_eq!((ground.offset_x.as_str(), ground.offset_y.as_str()), ("0", "0"));
    assert_eq!(ground.layer_index, 1);
    assert_eq!(ground.properties.get("solid"), Some(&PropertyValue::BoolValue(false)));
}

#[test]
fn later_properties_replace_earlier_ones() {
    let body = "<properties><property name=\"a\" value=\"1\"/><property name=\"b\" value=\"2\"/></properties>\
<layer name=\"x\"/>\
<properties><property name=\"c\" value=\"3\"/></properties>";
    let map = parse(&document(body)).unwrap();
    assert_eq!(map.properties.get("a"), None);
    assert_eq!(map.properties.get("b"), None);
    assert_eq!(map.properties.get("c"), Some(&PropertyValue::StringValue("3".to_string())));
}

#[test]
fn unknown_elements_are_passed_over() {
    let body = "<editorsettings><export target=\"x\"/></editorsettings><layer name=\"a\"><extra/></layer><whatever a=\"1\">text</whatever>";
    let map = parse(&document(body)).unwrap();
    assert_eq!(map.layers.len(), 1);
    assert_eq!(map.layers[0].name, "a");
}

#[test]
fn broken_xml_is_an_xml_error() {
    assert!(matches!(parse(b""), Err(TiledError::XmlDecodingError(_))));
    assert!(matches!(parse(b"<map"), Err(TiledError::XmlDecodingError(_))));
    assert!(matches!(
        parse(format!("{}<layer name=\"a\">", HEAD).as_bytes()),
        Err(TiledError::XmlDecodingError(_))
    ));
    assert!(matches!(
        parse(format!("{}<layer name=\"a\"></map>", HEAD).as_bytes()),
        Err(TiledError::XmlDecodingError(_))
    ));
}

#[test]
fn document_without_map_ends_early() {
    assert_eq!(
        parse(b"<?xml version=\"1.0\"?><tileset name=\"x\"/>"),
        Err(TiledError::PrematureEnd("Document ended before map was parsed".to_string()))
    );
    assert_eq!(
        parse_events(&vec![]),
        Err(TiledError::PrematureEnd("Document ended before map was parsed".to_string()))
    );
}

#[test]
fn events_that_stop_inside_the_map_end_early() {
    let ended = Err(TiledError::PrematureEnd("Document ended before we expected.".to_string()));
    assert_eq!(parse_events(&vec![map_start()]), ended);
    assert_eq!(parse_events(&vec![map_start(), XmlEvent::EndDocument]), ended);
    assert_eq!(parse_events(&vec![map_start(), start("layer", &[("name", "a")])]), ended);
    assert_eq!(
        parse_events(&vec![map_start(), start("layer", &[("name", "a")]), end("map")]),
        ended
    );
    assert_eq!(
        parse_events(&vec![map_start(), XmlEvent::Failure("1:1 broken".to_string())]),
        Err(TiledError::XmlDecodingError("1:1 broken".to_string()))
    );
}

#[test]
fn map_is_the_first_map_element() {
    let events = vec![
        start("wrapper", &[]),
        map_start(),
        start("layer", &[("name", "a")]),
        end("layer"),
        end("map"),
        start("layer", &[("name", "late")]),
        end("layer"),
        end("wrapper"),
        XmlEvent::EndDocument,
    ];
    let map = parse_events(&events).unwrap();
    assert_eq!(map.layers.len(), 1);
    assert_eq!(map.layers[0].name, "a");
}

#[test]
fn builder_rests_at_a_reference_and_reads_on() {
    let events = vec![
        XmlEvent::Other,
        map_start(),
        start("layer", &[("name", "below")]),
        end("layer"),
        start("tileset", &[("firstgid", "20"), ("source", "far.tsx")]),
        end("tileset"),
        start("layer", &[("name", "above")]),
        end("layer"),
        end("map"),
        XmlEvent::EndDocument,
    ];
    let (attrs, pos) = find_root(&events, "map", "no map").unwrap();
    assert_eq!(pos, 2);
    let head = TileMap::head(attrs).unwrap();
    let (mut map, layer_index, at) = match TileMap::advance(&events, pos, head, 0).unwrap() {
        Progress::Waiting { map, layer_index, pos, first_gid, source } => {
            assert_eq!((first_gid, source.as_str()), (20, "far.tsx"));
            (map, layer_index, pos)
        }
        Progress::Complete(_) => panic!("the map refers to a file"),
    };
    assert_eq!((layer_index, at), (1, 5));
    assert_eq!(map.layers.len(), 1);
    assert!(map.tilesets.is_empty());
    assert_eq!(
        TileMap::supply(&events, map.clone(), layer_index, at, 20, Err(TiledError::Other("gone".to_string()))).err(),
        Some(TiledError::Other("gone".to_string()))
    );
    map.tilesets.clear();
    match TileMap::supply(&events, map, layer_index, at, 20, Ok(TILESET_FILE.to_vec())).unwrap() {
        Progress::Complete(map) => {
            assert_eq!(map.tilesets.len(), 1);
            assert_eq!(map.tilesets[0].first_gid, 20);
            let layers: Vec<(&str, u32)> =
                map.layers.iter().map(|l| (l.name.as_str(), l.layer_index)).collect();
            assert_eq!(layers, vec![("below", 0), ("above", 1)]);
        }
        Progress::Waiting { .. } => panic!("no other file is referred to"),
    }
}

#[test]
fn answers_of_a_loader_become_tilesets_or_errors() {
    assert_eq!(
        Tileset::from_answer(Err(TiledError::Other("gone".to_string())), 1),
        Err(TiledError::Other("gone".to_string()))
    );
    assert_eq!(Tileset::from_answer(Ok(TILESET_FILE.to_vec()), 9).map(|t| t.first_gid), Ok(9));
    assert!(matches!(
        Tileset::from_answer(Ok(b"<tileset".to_vec()), 9),
        Err(TiledError::XmlDecodingError(_))
    ));
}

#[test]
fn tileset_elements_are_written_out_or_references() {
    let attrs = |pairs: &[(&str, &str)]| -> Vec<Attribute> {
        pairs
            .iter()
            .map(|(n, v)| Attribute { name: n.to_string(), value: v.to_string() })
            .collect()
    };
    let inline = attrs(&[
        ("firstgid", "3"),
        ("name", "n"),
        ("tilewidth", "8"),
        ("tileheight", "9"),
        ("source", "ignored.tsx"),
    ]);
    match Tileset::declare(&inline) {
        Ok(Declared::Inline(tileset)) => {
            assert_eq!((tileset.first_gid, tileset.tile_width, tileset.tile_height), (3, 8, 9))
        }
        other => panic!("expected a tileset, found {:?}", other.is_ok()),
    }
    match Tileset::declare(&attrs(&[("firstgid", "3"), ("source", "s.tsx")])) {
        Ok(Declared::External { first_gid, source }) => {
            assert_eq!((first_gid, source.as_str()), (3, "s.tsx"))
        }
        other => panic!("expected a reference, found {:?}", other.is_ok()),
    }
    assert!(Tileset::declare(&attrs(&[("source", "s.tsx")])).is_err());
    assert!(Tileset::declare(&attrs(&[("firstgid", "x"), ("source", "s.tsx")])).is_err());
    assert!(Tileset::declare(&attrs(&[("firstgid", "1")])).is_err());
}

#[test]
fn elements_are_passed_over_through_their_end_tag() {
    let events = vec![
        start("a", &[]),
        start("b", &[]),
        XmlEvent::Characters("text".to_string()),
        end("b"),
        end("a"),
        XmlEvent::EndDocument,
    ];
    assert_eq!(skip_to_close(&events, 1, "a"), Ok(5));
    assert_eq!(skip_to_close(&events, 1, "b"), Ok(4));
    assert_eq!(
        skip_to_close(&events, 1, "c"),
        Err(TiledError::PrematureEnd("Document ended before we expected.".to_string()))
    );
    assert_eq!(
        skip_to_close(&events, 99, "a"),
        Err(TiledError::PrematureEnd("Document ended before we expected.".to_string()))
    );
}

#[test]
fn map_dimensions_must_be_above_zero() {
    let empty = Err(TiledError::MalformedAttributes(
        "map must have a width, height and tile size above zero".to_string(),
    ));
    let names = ["width", "height", "tilewidth", "tileheight"];
    for zero in 0..names.len() {
        let mut attributes: Vec<(&str, &str)> = vec![("version", "1.0"), ("orientation", "orthogonal")];
        for (i, name) in names.iter().enumerate() {
            attributes.push((*name, if i == zero { "0" } else { "1" }));
        }
        let events = vec![start("map", &attributes), end("map"), XmlEvent::EndDocument];
        assert_eq!(parse_events(&events), empty);
        assert_eq!(parse_events_with_file_loader(&events, |_: &str| Ok(Vec::new())), empty);
        assert_eq!(parse_events_with_path(&events, "m.tmx", |_: &str, _: &str| Ok(Vec::new())), empty);
        let attrs = match &events[0] {
            XmlEvent::StartElement { attributes, .. } => attributes.clone(),
            _ => unreachable!(),
        };
        assert_eq!(TileMap::head(&attrs), empty);
        assert_eq!(TileMap::new_alone(&events, 1, &attrs), empty);
    }
    let text = "<map version=\"1.0\" orientation=\"orthogonal\" width=\"0\" height=\"1\" tilewidth=\"1\" tileheight=\"1\"/>";
    assert_eq!(parse(text.as_bytes()), empty);
    let text = "<map version=\"1.0\" orientation=\"orthogonal\" width=\"+0\" height=\"1\" tilewidth=\"1\" tileheight=\"000\"/>";
    assert_eq!(parse(text.as_bytes()), empty);
    let text = "<map version=\"1.0\" orientation=\"orthogonal\" width=\"1\" height=\"1\" tilewidth=\"1\" tileheight=\"1\"/>";
    let map = parse(text.as_bytes()).unwrap();
    assert_eq!((map.width, map.height, map.tile_width, map.tile_height), (1, 1, 1, 1));
}

#[test]
fn a_missing_attribute_is_reported_before_a_zero() {
    let text = "<map version=\"1.0\" orientation=\"orthogonal\" width=\"0\" height=\"1\" tilewidth=\"1\"/>";
    assert_eq!(
        parse(text.as_bytes()),
        Err(TiledError::MalformedAttributes(
            "map must have a version, width and height with correct types".to_string()
        ))
    );
}
