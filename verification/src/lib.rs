//! Reader for tile-map documents: the XML of a map is turned into a typed
//! `TileMap`, and global tile ids are resolved against the map's tilesets.
//!
//! The functions here take the bytes of a document. Fetching them, from a
//! file or elsewhere, is the caller's part; so is the reading of tileset
//! files that a map refers to, which a loader given by the caller does.

pub mod animation;
pub mod attrs;
pub mod builder;
pub mod colour;
pub mod data;
pub mod error;
pub mod events;
pub mod image;
pub mod layers;
pub mod map;
pub mod number;
pub mod objects;
pub mod orientation;
pub mod properties;
pub mod stack;
pub mod text;
pub mod tile;
pub mod tileset;

use vstd::prelude::*;
use crate::builder::{answer_views, asked_in_turn, beside, by_source, no_location};
use crate::error::{viewed, ErrorView, TiledError};
use crate::events::{find_root, read_events, views, xml_events, EventView, XmlEvent};
use crate::map::{TileMap, TileMapView};
use crate::tileset::Tileset;

verus! {

/// What holds of every way of reading the document `events`, whatever a
/// loader answers: a document that refers to no tileset file is read as if
/// alone, and every map that is read is built from the attributes of the
/// document's `map` element.
pub proof fn lemma_every_reading(events: Seq<EventView>)
    ensures
        !TileMap::refers_to_file(events) ==> forall|answers: Seq<Result<Seq<u8>, ErrorView>>| #[trigger]
            TileMap::document(events, answers) == TileMap::document(
                events,
                Seq::<Result<Seq<u8>, ErrorView>>::empty(),
            ),
        forall|answers: Seq<Result<Seq<u8>, ErrorView>>|
            (#[trigger] TileMap::document(events, answers)) is Ok ==> TileMap::document(
                events,
                answers,
            )->Ok_0.built_from(TileMap::head_of(events)),
{
    assert forall|answers: Seq<Result<Seq<u8>, ErrorView>>|
        !TileMap::refers_to_file(events) implies #[trigger] TileMap::document(events, answers)
        == TileMap::document(events, Seq::<Result<Seq<u8>, ErrorView>>::empty()) by {
        crate::builder::lemma_alone_needs_no_loader(events, answers);
    }
    assert forall|answers: Seq<Result<Seq<u8>, ErrorView>>|
        (#[trigger] TileMap::document(events, answers)) is Ok implies TileMap::document(
        events,
        answers,
    )->Ok_0.built_from(TileMap::head_of(events)) by {
        crate::stack::lemma_document_is_built(events, answers);
    }
}

/// Reads a map from the events of its document. The map stands alone: a
/// reference to a tileset file fails it.
pub fn parse_events(events: &Vec<XmlEvent>) -> (r: Result<TileMap, TiledError>)
    ensures
        viewed(r) == TileMap::document(views(events@), Seq::<Result<Seq<u8>, ErrorView>>::empty()),
        TileMap::refers_to_file(views(events@)) ==> viewed(r) == Err::<
            TileMapView,
            ErrorView,
        >(no_location()),
        r matches Ok(built) ==> built@.built_from(TileMap::head_of(views(events@))),
{
    proof {
        reveal(TileMap::replay);
        crate::builder::lemma_file_needs_location(views(events@));
        lemma_every_reading(views(events@));
    }
    let (attrs, pos) = find_root(events, "map", "Document ended before map was parsed")?;
    TileMap::new_alone(events, pos, attrs)
}

/// Reads a map from the events of its document. Each tileset file that the
/// map refers to is asked of `external_file_loader`, by the name that the
/// map gives it. A map that refers to no file is read as if alone.
pub fn parse_events_with_file_loader<F: FnMut(&str) -> Result<Vec<u8>, TiledError>>(
    events: &Vec<XmlEvent>,
    external_file_loader: F,
) -> (r: Result<TileMap, TiledError>)
    requires
        forall|name: &str| call_requires(external_file_loader, (name,)),
    ensures
        exists|answers: Seq<Result<Vec<u8>, TiledError>>|
            viewed(r) == TileMap::document(views(events@), answer_views(answers))
                && #[trigger] asked_in_turn(
                views(events@),
                TileMap::opening(views(events@)),
                by_source(external_file_loader),
                answers,
            ),
        !TileMap::refers_to_file(views(events@)) ==> viewed(r) == TileMap::document(
            views(events@),
            Seq::<Result<Seq<u8>, ErrorView>>::empty(),
        ),
        r matches Ok(built) ==> built@.built_from(TileMap::head_of(views(events@))),
{
    let ghost ev = views(events@);
    let ghost given = by_source(external_file_loader);
    proof {
        lemma_every_reading(ev);
    }
    match find_root(events, "map", "Document ended before map was parsed") {
        Err(e) => {
            proof {
                let none = Seq::<Result<Vec<u8>, TiledError>>::empty();
                crate::builder::lemma_replay_none(ev, TileMap::opening(ev));
                assert(asked_in_turn(ev, TileMap::opening(ev), given, none));
                assert(viewed(Err::<TileMap, TiledError>(e)) == TileMap::document(
                    ev,
                    answer_views(none),
                ));
            }
            Err(e)
        },
        Ok((attrs, pos)) => {
            let r = TileMap::new(events, pos, attrs, external_file_loader);
            proof {
                let answers = choose|answers: Seq<Result<Vec<u8>, TiledError>>|
                    viewed(r) == TileMap::element(
                        ev,
                        pos as int,
                        views(attrs@),
                        answer_views(answers),
                    ) && #[trigger] asked_in_turn(
                        ev,
                        TileMap::first_state(ev, pos as int, views(attrs@)),
                        given,
                        answers,
                    );
                assert(viewed(r) == TileMap::document(ev, answer_views(answers)));
                assert(asked_in_turn(ev, TileMap::opening(ev), given, answers));
            }
            r
        },
    }
}

/// Reads a map from the events of its document, which is at `path`. Each
/// tileset file that the map refers to is asked of `read_file` by two
/// values: `path`, and the name that the map gives the file. It is for
/// `read_file` to find the file of that name beside the map. A map that
/// refers to no file is read as if alone.
pub fn parse_events_with_path<F: FnMut(&str, &str) -> Result<Vec<u8>, TiledError>>(
    events: &Vec<XmlEvent>,
    path: &str,
    read_file: F,
) -> (r: Result<TileMap, TiledError>)
    requires
        forall|place: &str, name: &str| call_requires(read_file, (place, name)),
    ensures
        exists|answers: Seq<Result<Vec<u8>, TiledError>>|
            viewed(r) == TileMap::document(views(events@), answer_views(answers))
                && #[trigger] asked_in_turn(
                views(events@),
                TileMap::opening(views(events@)),
                beside(read_file, path@),
                answers,
            ),
        !TileMap::refers_to_file(views(events@)) ==> viewed(r) == TileMap::document(
            views(events@),
            Seq::<Result<Seq<u8>, ErrorView>>::empty(),
        ),
        r matches Ok(built) ==> built@.built_from(TileMap::head_of(views(events@))),
{
    let ghost ev = views(events@);
    let ghost given = beside(read_file, path@);
    proof {
        lemma_every_reading(ev);
    }
    match find_root(events, "map", "Document ended before map was parsed") {
        Err(e) => {
            proof {
                let none = Seq::<Result<Vec<u8>, TiledError>>::empty();
                crate::builder::lemma_replay_none(ev, TileMap::opening(ev));
                assert(asked_in_turn(ev, TileMap::opening(ev), given, none));
                assert(viewed(Err::<TileMap, TiledError>(e)) == TileMap::document(
                    ev,
                    answer_views(none),
                ));
            }
            Err(e)
        },
        Ok((attrs, pos)) => {
            let r = TileMap::new_beside(events, pos, attrs, path, read_file);
            proof {
                let answers = choose|answers: Seq<Result<Vec<u8>, TiledError>>|
                    viewed(r) == TileMap::element(
                        ev,
                        pos as int,
                        views(attrs@),
                        answer_views(answers),
                    ) && #[trigger] asked_in_turn(
                        ev,
                        TileMap::first_state(ev, pos as int, views(attrs@)),
                        given,
                        answers,
                    );
                assert(viewed(r) == TileMap::document(ev, answer_views(answers)));
                assert(asked_in_turn(ev, TileMap::opening(ev), given, answers));
            }
            r
        },
    }
}

/// Reads a map from the bytes of its document. The map stands alone: a
/// reference to a tileset file fails it, and no file is looked for.
pub fn parse(bytes: &[u8]) -> (r: Result<TileMap, TiledError>)
    ensures
        viewed(r) == TileMap::document(
            xml_events(bytes@),
            Seq::<Result<Seq<u8>, ErrorView>>::empty(),
        ),
        TileMap::refers_to_file(xml_events(bytes@)) ==> viewed(r) == Err::<
            TileMapView,
            ErrorView,
        >(no_location()),
        r matches Ok(built) ==> built@.built_from(TileMap::head_of(xml_events(bytes@))),
{
    let events = read_events(bytes);
    parse_events(&events)
}

/// Reads a map from the bytes of its document. Each tileset file that the
/// map refers to is asked of `external_file_loader`, by the name that the
/// map gives it.
pub fn parse_with_file_loader<F: FnMut(&str) -> Result<Vec<u8>, TiledError>>(
    bytes: &[u8],
    external_file_loader: F,
) -> (r: Result<TileMap, TiledError>)
    requires
        forall|name: &str| call_requires(external_file_loader, (name,)),
    ensures
        exists|answers: Seq<Result<Vec<u8>, TiledError>>|
            viewed(r) == TileMap::document(xml_events(bytes@), answer_views(answers))
                && #[trigger] asked_in_turn(
                xml_events(bytes@),
                TileMap::opening(xml_events(bytes@)),
                by_source(external_file_loader),
                answers,
            ),
        !TileMap::refers_to_file(xml_events(bytes@)) ==> viewed(r) == TileMap::document(
            xml_events(bytes@),
            Seq::<Result<Seq<u8>, ErrorView>>::empty(),
        ),
        r matches Ok(built) ==> built@.built_from(TileMap::head_of(xml_events(bytes@))),
{
    let events = read_events(bytes);
    parse_events_with_file_loader(&events, external_file_loader)
}

/// Reads a map from the bytes of its document, which is at `path`. Each
/// tileset file that the map refers to is asked of `read_file` by two
/// values: `path`, and the name that the map gives the file. It is for
/// `read_file` to find the file of that name beside the map.
pub fn parse_with_path<F: FnMut(&str, &str) -> Result<Vec<u8>, TiledError>>(
    bytes: &[u8],
    path: &str,
    read_file: F,
) -> (r: Result<TileMap, TiledError>)
    requires
        forall|place: &str, name: &str| call_requires(read_file, (place, name)),
    ensures
        exists|answers: Seq<Result<Vec<u8>, TiledError>>|
            viewed(r) == TileMap::document(xml_events(bytes@), answer_views(answers))
                && #[trigger] asked_in_turn(
                xml_events(bytes@),
                TileMap::opening(xml_events(bytes@)),
                beside(read_file, path@),
                answers,
            ),
        !TileMap::refers_to_file(xml_events(bytes@)) ==> viewed(r) == TileMap::document(
            xml_events(bytes@),
            Seq::<Result<Seq<u8>, ErrorView>>::empty(),
        ),
        r matches Ok(built) ==> built@.built_from(TileMap::head_of(xml_events(bytes@))),
{
    let events = read_events(bytes);
    parse_events_with_path(&events, path, read_file)
}

/// Reads a tileset from the bytes of a tileset file. Such a file does not
/// say where its global ids begin: `first_gid` does.
pub fn parse_tileset(bytes: &[u8], first_gid: u32) -> (r: Result<Tileset, TiledError>)
    ensures
        viewed(r) == Tileset::document(xml_events(bytes@), first_gid),
{
    let events = read_events(bytes);
    Tileset::new_external(&events, first_gid)
}

} // verus!
