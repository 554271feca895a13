//! Custom properties: a `properties` element maps names to typed values.

use vstd::prelude::*;
use crate::attrs::{attr_value, find_attr};
use crate::colour::Colour;
use crate::error::{placed, viewed, ErrorView, TiledError};
use crate::events::{
    step, step_at, views, Attribute, AttributeView, EventView, Step, StepView, XmlEvent,
};
use crate::number::{is_real, is_real_text};
use crate::text::{parse_bool, parse_bool_spec, parse_i32, parse_i32_spec, str_eq};

verus! {

/// The value of a property. A `float` keeps the text that writes it.
#[derive(Debug, PartialEq, Clone)]
pub enum PropertyValue {
    BoolValue(bool),
    FloatValue(String),
    IntValue(i32),
    ColorValue(Colour),
    StringValue(String),
    FileValue(String),
}

/// A property value as ghost data.
pub enum PropertyValueView {
    BoolValue(bool),
    FloatValue(Seq<char>),
    IntValue(i32),
    ColorValue(Colour),
    StringValue(Seq<char>),
    FileValue(Seq<char>),
}

impl View for PropertyValue {
    type V = PropertyValueView;

    open spec fn view(&self) -> PropertyValueView {
        match self {
            PropertyValue::BoolValue(b) => PropertyValueView::BoolValue(*b),
            PropertyValue::FloatValue(t) => PropertyValueView::FloatValue(t@),
            PropertyValue::IntValue(i) => PropertyValueView::IntValue(*i),
            PropertyValue::ColorValue(c) => PropertyValueView::ColorValue(*c),
            PropertyValue::StringValue(t) => PropertyValueView::StringValue(t@),
            PropertyValue::FileValue(t) => PropertyValueView::FileValue(t@),
        }
    }
}

/// The error for a value that does not fit its declared type.
pub open spec fn bad_value() -> ErrorView {
    ErrorView::Other("Improperly formatted property"@)
}

/// The typed value that a property of the given type and text has.
pub open spec fn property_value(kind: Seq<char>, text: Seq<char>) -> Result<
    PropertyValueView,
    ErrorView,
> {
    if kind == "bool"@ {
        match parse_bool_spec(text) {
            Some(b) => Ok(PropertyValueView::BoolValue(b)),
            None => Err(bad_value()),
        }
    } else if kind == "float"@ {
        if is_real(text) {
            Ok(PropertyValueView::FloatValue(text))
        } else {
            Err(bad_value())
        }
    } else if kind == "int"@ {
        match parse_i32_spec(text) {
            Some(i) => Ok(PropertyValueView::IntValue(i)),
            None => Err(bad_value()),
        }
    } else if kind == "color"@ {
        match Colour::parse_spec(text) {
            Ok(c) => Ok(PropertyValueView::ColorValue(c)),
            Err(_) => Err(bad_value()),
        }
    } else if kind == "string"@ {
        Ok(PropertyValueView::StringValue(text))
    } else if kind == "file"@ {
        Ok(PropertyValueView::FileValue(text))
    } else {
        Err(ErrorView::Other("Unknown property type"@))
    }
}

impl PropertyValue {
    /// Converts the text of a property to a value of its declared type.
    pub fn new(kind: &str, text: String) -> (r: Result<PropertyValue, TiledError>)
        ensures
            viewed(r) == property_value(kind@, text@),
    {
        if str_eq(kind, "bool") {
            match parse_bool(text.as_str()) {
                Some(b) => Ok(PropertyValue::BoolValue(b)),
                None => Err(TiledError::Other("Improperly formatted property".to_owned())),
            }
        } else if str_eq(kind, "float") {
            if is_real_text(text.as_str()) {
                Ok(PropertyValue::FloatValue(text))
            } else {
                Err(TiledError::Other("Improperly formatted property".to_owned()))
            }
        } else if str_eq(kind, "int") {
            match parse_i32(text.as_str()) {
                Some(i) => Ok(PropertyValue::IntValue(i)),
                None => Err(TiledError::Other("Improperly formatted property".to_owned())),
            }
        } else if str_eq(kind, "color") {
            match Colour::from_str(text.as_str()) {
                Ok(c) => Ok(PropertyValue::ColorValue(c)),
                Err(_) => Err(TiledError::Other("Improperly formatted property".to_owned())),
            }
        } else if str_eq(kind, "string") {
            Ok(PropertyValue::StringValue(text))
        } else if str_eq(kind, "file") {
            Ok(PropertyValue::FileValue(text))
        } else {
            Err(TiledError::Other("Unknown property type".to_owned()))
        }
    }
}

/// A named value.
#[derive(Debug, PartialEq, Clone)]
pub struct Property {
    pub name: String,
    pub value: PropertyValue,
}

/// A property as ghost data.
pub struct PropertyView {
    pub name: Seq<char>,
    pub value: PropertyValueView,
}

impl View for Property {
    type V = PropertyView;

    open spec fn view(&self) -> PropertyView {
        PropertyView { name: self.name@, value: self.value@ }
    }
}

/// The mapping that a list of entries stands for: a later entry replaces an
/// earlier one of the same name.
pub open spec fn entries_map(entries: Seq<PropertyView>) -> Map<Seq<char>, PropertyValueView>
    decreases entries.len(),
{
    if entries.len() == 0 {
        Map::empty()
    } else {
        entries_map(entries.drop_last()).insert(entries.last().name, entries.last().value)
    }
}

/// The value under a key, if the key is there.
pub open spec fn lookup(m: Map<Seq<char>, PropertyValueView>, name: Seq<char>) -> Option<
    PropertyValueView,
> {
    if m.contains_key(name) {
        Some(m[name])
    } else {
        None
    }
}

/// A mapping from property names to values. Its meaning is the mapping; the
/// entries are kept in the order they were set.
#[derive(Debug, PartialEq, Clone)]
pub struct Properties {
    pub entries: Vec<Property>,
}

impl View for Properties {
    type V = Map<Seq<char>, PropertyValueView>;

    open spec fn view(&self) -> Map<Seq<char>, PropertyValueView> {
        entries_map(views(self.entries@))
    }
}

impl Properties {
    /// No properties.
    pub fn new() -> (p: Properties)
        ensures
            p@ == Map::<Seq<char>, PropertyValueView>::empty(),
    {
        Properties { entries: Vec::new() }
    }

    /// Sets `name` to `value`, replacing what it was set to before.
    pub fn insert(&mut self, name: String, value: PropertyValue)
        ensures
            final(self)@ == old(self)@.insert(name@, value@),
    {
        let ghost before = views(self.entries@);
        let entry = Property { name, value };
        self.entries.push(entry);
        proof {
            assert(views(self.entries@) =~= before.push(entry@));
            assert(views(self.entries@).drop_last() =~= before);
        }
    }

    /// The value that `name` is set to.
    pub fn get(&self, name: &str) -> (r: Option<&PropertyValue>)
        ensures
            match r {
                Some(v) => lookup(self@, name@) == Some(v@),
                None => lookup(self@, name@) is None,
            },
    {
        let ghost all = views(self.entries@);
        let mut i: usize = self.entries.len();
        assert(all.take(i as int) =~= all);
        while i > 0
            invariant
                i <= self.entries@.len(),
                all == views(self.entries@),
                lookup(entries_map(all), name@) == lookup(entries_map(all.take(i as int)), name@),
            decreases i,
        {
            i -= 1;
            proof {
                assert(all.take(i + 1).drop_last() =~= all.take(i as int));
                assert(all.take(i + 1).last() == self.entries@[i as int]@);
            }
            if str_eq(self.entries[i].name.as_str(), name) {
                return Some(&self.entries[i].value);
            }
        }
        proof {
            assert(all.take(0).len() == 0);
        }
        None
    }
}

/// The error for a `property` element without a name.
pub open spec fn unnamed_property() -> ErrorView {
    ErrorView::MalformedAttributes("property must have a name and a value"@)
}

/// The error for a `property` element with neither a `value` nor text.
pub open spec fn valueless_property() -> ErrorView {
    ErrorView::MalformedAttributes("property is missing a value"@)
}

/// The text of a property whose start tag is followed by the event at `pos`,
/// and where reading goes on: the `value` attribute, or else the character
/// data that comes next.
pub open spec fn property_text(events: Seq<EventView>, pos: int, attrs: Seq<AttributeView>) -> Result<
    (Seq<char>, int),
    ErrorView,
> {
    match attr_value(attrs, "value"@) {
        Some(v) => Ok((v, pos)),
        None => if 0 <= pos < events.len() {
            match events[pos] {
                EventView::Characters(text) => Ok((text, pos + 1)),
                EventView::Failure(reason) => Err(ErrorView::XmlDecodingError(reason)),
                _ => Err(valueless_property()),
            }
        } else {
            Err(valueless_property())
        },
    }
}

/// The type that a `property` element declares; `string` where it declares none.
pub open spec fn property_kind(attrs: Seq<AttributeView>) -> Seq<char> {
    match attr_value(attrs, "type"@) {
        Some(kind) => kind,
        None => "string"@,
    }
}

/// The entry that a `property` element stands for, and where reading goes on.
pub open spec fn property_entry(events: Seq<EventView>, pos: int, attrs: Seq<AttributeView>) -> Result<
    (PropertyView, int),
    ErrorView,
> {
    match attr_value(attrs, "name"@) {
        None => Err(unnamed_property()),
        Some(name) => match property_text(events, pos, attrs) {
            Err(e) => Err(e),
            Ok((text, next)) => match property_value(property_kind(attrs), text) {
                Err(e) => Err(e),
                Ok(value) => Ok((PropertyView { name, value }, next)),
            },
        },
    }
}

/// The properties collected from `pos` to the end tag of a `properties`
/// element, added to `acc`, and the position after that end tag. Elements
/// other than `property` are passed over.
#[verifier::opaque]
pub open spec fn properties_body(
    events: Seq<EventView>,
    pos: int,
    acc: Map<Seq<char>, PropertyValueView>,
) -> Result<(Map<Seq<char>, PropertyValueView>, int), ErrorView>
    decreases events.len() - pos,
{
    match step_at(events, pos, "properties"@) {
        StepView::Fail(e) => Err(e),
        StepView::Close => Ok((acc, pos + 1)),
        StepView::Skip => properties_body(events, pos + 1, acc),
        StepView::Child { name, attributes } => if name == "property"@ {
            match property_entry(events, pos + 1, attributes) {
                Err(e) => Err(e),
                Ok((entry, next)) => if next == pos + 2 {
                    properties_body(events, pos + 2, acc.insert(entry.name, entry.value))
                } else {
                    properties_body(events, pos + 1, acc.insert(entry.name, entry.value))
                },
            }
        } else {
            properties_body(events, pos + 1, acc)
        },
    }
}

/// Reads one `property` element whose start tag is followed by the event at `pos`.
pub fn parse_property(events: &Vec<XmlEvent>, pos: usize, attrs: &Vec<Attribute>) -> (r: Result<
    (Property, usize),
    TiledError,
>)
    ensures
        placed(r) == property_entry(views(events@), pos as int, views(attrs@)),
        r matches Ok((_, next)) ==> next == pos || (next == pos + 1 && next <= events@.len()),
{
    let name = match find_attr(attrs, "name") {
        Some(name) => name.clone(),
        None => {
            return Err(
                TiledError::MalformedAttributes("property must have a name and a value".to_owned()),
            );
        },
    };
    let (text, next) = match find_attr(attrs, "value") {
        Some(v) => (v.clone(), pos),
        None => {
            if pos < events.len() {
                assert(views(events@)[pos as int] == events@[pos as int]@);
                match &events[pos] {
                    XmlEvent::Characters(text) => (text.clone(), pos + 1),
                    XmlEvent::Failure(reason) => {
                        return Err(TiledError::XmlDecodingError(reason.clone()));
                    },
                    _ => {
                        return Err(
                            TiledError::MalformedAttributes("property is missing a value".to_owned()),
                        );
                    },
                }
            } else {
                return Err(TiledError::MalformedAttributes("property is missing a value".to_owned()));
            }
        },
    };
    let value = match find_attr(attrs, "type") {
        Some(kind) => PropertyValue::new(kind.as_str(), text)?,
        None => PropertyValue::new("string", text)?,
    };
    Ok((Property { name, value }, next))
}

/// Reads the children of a `properties` element, from the event after its
/// start tag through its end tag.
pub fn parse_properties(events: &Vec<XmlEvent>, start: usize) -> (r: Result<
    (Properties, usize),
    TiledError,
>)
    ensures
        placed(r) == properties_body(
            views(events@),
            start as int,
            Map::<Seq<char>, PropertyValueView>::empty(),
        ),
        r matches Ok((_, next)) ==> start < next <= events@.len(),
{
    let ghost ev = views(events@);
    let mut props = Properties::new();
    let mut pos: usize = start;
    loop
        invariant
            start <= pos,
            ev == views(events@),
            properties_body(ev, pos as int, props@) == properties_body(
                ev,
                start as int,
                Map::<Seq<char>, PropertyValueView>::empty(),
            ),
        decreases events@.len() - pos,
    {
        proof {
            reveal(properties_body);
        }
        match step(events, pos, "properties") {
            Step::Fail(e) => {
                return Err(e);
            },
            Step::Close => {
                return Ok((props, pos + 1));
            },
            Step::Skip => {
                pos += 1;
            },
            Step::Child { name, attributes } => {
                if str_eq(name.as_str(), "property") {
                    let (entry, next) = parse_property(events, pos + 1, attributes)?;
                    props.insert(entry.name, entry.value);
                    pos = next;
                } else {
                    pos += 1;
                }
            },
        }
    }
}

} // verus!
