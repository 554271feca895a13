//! What holds of every map that is built: its layers, image layers and
//! object groups share one stack, numbered from 0 in the order of the
//! document, and what the `map` element's attributes say stays as read.

use vstd::prelude::*;
use crate::builder::{no_map, GrownView, ProgressView};
use crate::error::ErrorView;
use crate::events::{resume, step_at, AttributeView, EventView, StepView};
use crate::map::{TileMap, TileMapView};
use crate::tileset::Tileset;

verus! {

/// Whether an element takes a place in the stack of layers.
pub open spec fn is_layer_kind(name: Seq<char>) -> bool {
    name == "layer"@ || name == "imagelayer"@ || name == "objectgroup"@
}

/// The three kinds of layer, and `tileset` and `properties`, are five
/// different names.
pub proof fn lemma_child_names_differ()
    ensures
        "tileset"@ != "layer"@,
        "tileset"@ != "imagelayer"@,
        "tileset"@ != "objectgroup"@,
        "tileset"@ != "properties"@,
        "layer"@ != "imagelayer"@,
        "layer"@ != "objectgroup"@,
        "layer"@ != "properties"@,
        "imagelayer"@ != "objectgroup"@,
        "imagelayer"@ != "properties"@,
        "objectgroup"@ != "properties"@,
{
    reveal_strlit("tileset");
    reveal_strlit("layer");
    reveal_strlit("imagelayer");
    reveal_strlit("objectgroup");
    reveal_strlit("properties");
    assert("tileset"@.len() == 7);
    assert("layer"@.len() == 5);
    assert("imagelayer"@.len() == 10);
    assert("objectgroup"@.len() == 11);
    assert("properties"@[0] == 'p');
    assert("imagelayer"@[0] == 'i');
}

/// A child that is a layer of any kind takes the next index of the stack,
/// whatever kinds came before it, and the index after it is the next; any
/// other child leaves the stack as it is.
pub proof fn lemma_child_takes_next_index(
    events: Seq<EventView>,
    pos: int,
    name: Seq<char>,
    attributes: Seq<AttributeView>,
    acc: TileMapView,
    layer_index: u32,
)
    requires
        acc.stacked(),
        layer_index == acc.stack_height(),
    ensures
        match TileMap::child(events, pos, name, attributes, acc, layer_index) {
            Ok(GrownView::Added { map, layer_index: following, next }) => {
                &&& map.stacked()
                &&& following == map.stack_height()
                &&& is_layer_kind(name) ==> following == layer_index + 1
                &&& !is_layer_kind(name) ==> following == layer_index
                &&& name == "layer"@ ==> map.layers.len() == acc.layers.len() + 1
                    && map.layers.last().layer_index == layer_index
                &&& name == "imagelayer"@ ==> map.image_layers.len() == acc.image_layers.len() + 1
                    && map.image_layers.last().layer_index == layer_index
                &&& name == "objectgroup"@ ==> map.object_groups.len() == acc.object_groups.len()
                    + 1 && map.object_groups.last().layer_index == Some(layer_index)
            },
            _ => true,
        },
{
    lemma_child_names_differ();
}

/// Reading the children of a map keeps its layers numbered as one stack.
pub proof fn lemma_progress_keeps_stack(
    events: Seq<EventView>,
    pos: int,
    acc: TileMapView,
    layer_index: u32,
)
    requires
        acc.stacked(),
        layer_index == acc.stack_height(),
    ensures
        match TileMap::progress(events, pos, acc, layer_index) {
            Ok(ProgressView::Complete(map)) => map.stacked(),
            Ok(ProgressView::Waiting { map, layer_index: following, .. }) => map.stacked()
                && following == map.stack_height(),
            Err(_) => true,
        },
    decreases events.len() - pos,
{
    reveal(TileMap::progress);
    match step_at(events, pos, "map"@) {
        StepView::Skip => {
            lemma_progress_keeps_stack(events, pos + 1, acc, layer_index);
        },
        StepView::Child { name, attributes } => {
            lemma_child_takes_next_index(events, pos, name, attributes, acc, layer_index);
            match TileMap::child(events, pos, name, attributes, acc, layer_index) {
                Ok(GrownView::Added { map, layer_index: following, next }) => {
                    lemma_progress_keeps_stack(events, resume(events, pos, next), map, following);
                },
                _ => {},
            }
        },
        _ => {},
    }
}

/// Whether a state of the builder has its layers numbered as one stack.
pub open spec fn state_stacked(state: Result<ProgressView, ErrorView>) -> bool {
    match state {
        Ok(ProgressView::Complete(map)) => map.stacked(),
        Ok(ProgressView::Waiting { map, layer_index, .. }) => map.stacked() && layer_index
            == map.stack_height(),
        Err(_) => true,
    }
}

/// The answers of a loader add tilesets and no layers: the stack stays numbered.
pub proof fn lemma_replay_keeps_stack(
    events: Seq<EventView>,
    state: Result<ProgressView, ErrorView>,
    answers: Seq<Result<Seq<u8>, ErrorView>>,
)
    requires
        state_stacked(state),
    ensures
        state_stacked(TileMap::replay(events, state, answers)),
    decreases answers.len(),
{
    reveal(TileMap::replay);
    if answers.len() > 0 {
        let fed = TileMap::feed(events, state, answers[0]);
        match state {
            Ok(ProgressView::Waiting { map, layer_index, pos, first_gid, source }) => {
                match Tileset::loaded(answers[0], first_gid) {
                    Ok(tileset) => {
                        lemma_progress_keeps_stack(
                            events,
                            pos,
                            map.with_tileset(tileset),
                            layer_index,
                        );
                    },
                    Err(_) => {},
                }
            },
            _ => {},
        }
        lemma_replay_keeps_stack(events, fed, answers.skip(1));
    }
}

/// Whether a state of the builder holds a map with the head `head`.
pub open spec fn state_has_head(state: Result<ProgressView, ErrorView>, head: TileMapView) -> bool {
    match state {
        Ok(ProgressView::Complete(map)) => map.same_head(head),
        Ok(ProgressView::Waiting { map, .. }) => map.same_head(head),
        Err(_) => true,
    }
}

/// Reading the children of a map leaves what its own attributes say.
pub proof fn lemma_progress_keeps_head(
    events: Seq<EventView>,
    pos: int,
    acc: TileMapView,
    layer_index: u32,
    head: TileMapView,
)
    requires
        acc.same_head(head),
    ensures
        state_has_head(TileMap::progress(events, pos, acc, layer_index), head),
    decreases events.len() - pos,
{
    reveal(TileMap::progress);
    match step_at(events, pos, "map"@) {
        StepView::Skip => {
            lemma_progress_keeps_head(events, pos + 1, acc, layer_index, head);
        },
        StepView::Child { name, attributes } => {
            match TileMap::child(events, pos, name, attributes, acc, layer_index) {
                Ok(GrownView::Added { map, layer_index: following, next }) => {
                    lemma_progress_keeps_head(
                        events,
                        resume(events, pos, next),
                        map,
                        following,
                        head,
                    );
                },
                _ => {},
            }
        },
        _ => {},
    }
}

/// The answers of a loader leave what the map's own attributes say.
pub proof fn lemma_replay_keeps_head(
    events: Seq<EventView>,
    state: Result<ProgressView, ErrorView>,
    answers: Seq<Result<Seq<u8>, ErrorView>>,
    head: TileMapView,
)
    requires
        state_has_head(state, head),
    ensures
        state_has_head(TileMap::replay(events, state, answers), head),
    decreases answers.len(),
{
    reveal(TileMap::replay);
    if answers.len() > 0 {
        match state {
            Ok(ProgressView::Waiting { map, layer_index, pos, first_gid, source }) => {
                match Tileset::loaded(answers[0], first_gid) {
                    Ok(tileset) => {
                        lemma_progress_keeps_head(
                            events,
                            pos,
                            map.with_tileset(tileset),
                            layer_index,
                            head,
                        );
                    },
                    Err(_) => {},
                }
            },
            _ => {},
        }
        lemma_replay_keeps_head(
            events,
            TileMap::feed(events, state, answers[0]),
            answers.skip(1),
            head,
        );
    }
}

/// Every map that is built from a `map` element has what the element's
/// attributes say, positive dimensions, and its layers, image layers and
/// object groups numbered as one stack, from 0 upward in the order of the
/// document, whatever their kinds and whatever the loader answered.
pub proof fn lemma_element_is_built(
    events: Seq<EventView>,
    pos: int,
    attrs: Seq<AttributeView>,
    answers: Seq<Result<Seq<u8>, ErrorView>>,
)
    ensures
        TileMap::element(events, pos, attrs, answers) matches Ok(map) ==> map.built_from(
            TileMap::from_attributes(attrs),
        ),
{
    let first = TileMap::first_state(events, pos, attrs);
    match TileMap::from_attributes(attrs) {
        Ok(head) => {
            lemma_progress_keeps_stack(events, pos, head, 0);
            lemma_progress_keeps_head(events, pos, head, 0, head);
            lemma_replay_keeps_stack(events, first, answers);
            lemma_replay_keeps_head(events, first, answers, head);
        },
        Err(_) => {
            crate::builder::lemma_replay_at_rest(events, first, answers);
        },
    }
}

/// Every map that is read from a document is built from the attributes of
/// the document's `map` element.
pub proof fn lemma_document_is_built(
    events: Seq<EventView>,
    answers: Seq<Result<Seq<u8>, ErrorView>>,
)
    ensures
        TileMap::document(events, answers) matches Ok(map) ==> map.built_from(
            TileMap::head_of(events),
        ),
{
    match crate::events::root_of(events, 0, "map"@, no_map()) {
        Ok((attrs, pos)) => {
            lemma_element_is_built(events, pos, attrs, answers);
        },
        Err(_) => {
            crate::builder::lemma_replay_at_rest(events, TileMap::opening(events), answers);
        },
    }
}

} // verus!
