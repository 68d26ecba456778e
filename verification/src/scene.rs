//! Drawing a scene: the tiles of the map in their staggered rows, and the
//! objects that stand on it.

use vstd::prelude::*;
use vstd::string::*;
use crate::data::{EventObject, GameState, ObjectState};
use crate::map::TileMap;
use crate::play::{draw_scene, spec_draw_scene, Resource};
use crate::sprite::{blit, draw_sprite_frame, SpriteFrame};
use crate::ui::{
    decimal_text, draw_text, lemma_decimal_length, pow10, signed_decimal_text, spec_decimal,
    spec_draw_text, spec_signed_decimal, text_drawable, UI,
};
use crate::utils::{Pos, Rect};

verus! {

/// Width of the screen in pixels.
pub const SCREEN_WIDTH: usize = 320;

/// Height of the screen in pixels.
pub const SCREEN_HEIGHT: usize = 200;

/// Pixels of the screen.
pub const SCREEN_PIXELS: usize = 64000;

/// The largest coordinate and the largest extent of a view onto the map
/// that the drawing code reckons with.
pub const REACH: isize = 0x2000_0000;

/// Whether a view onto the map lies within reach.
pub open spec fn in_reach(rect: Rect) -> bool {
    &&& -REACH <= rect.x <= REACH
    &&& -REACH <= rect.y <= REACH
    &&& rect.w <= REACH
    &&& rect.h <= REACH
}

/// Division that rounds towards zero.
pub open spec fn trunc_div(a: int, b: int) -> int {
    if a >= 0 {
        a / b
    } else {
        -((-a) / b)
    }
}

/// The frame that is drawn for a tile: that of the tile, or, where the map
/// has none for it, that of the tile in the first cell of the map.
pub open spec fn tile_or_fallback(map: TileMap, x: int, y: int, h: int, layer: nat) -> Option<
    SpriteFrame,
> {
    match map.spec_get_tile_sprite(x, y, h, layer) {
        Some(frame) => Some(frame),
        None => map.spec_get_tile_sprite(0, 0, 0, layer),
    }
}

/// The screen after the tile at `(x, y)`, half `h`, was drawn at
/// `(x_pos, y_pos)`.
pub open spec fn spec_draw_tile(
    map: TileMap,
    dest: Seq<u8>,
    x: int,
    y: int,
    h: int,
    x_pos: int,
    y_pos: int,
    layer: nat,
) -> Seq<u8> {
    match tile_or_fallback(map, x, y, h, layer) {
        Some(frame) => blit(frame, dest, SCREEN_WIDTH as nat, SCREEN_HEIGHT as nat, x_pos, y_pos),
        None => dest,
    }
}

/// The screen after the tiles of columns `x` up to `dx` of one half row were
/// drawn, the first at `(x_pos, y_pos)`, each 32 pixels right of the one
/// before.
pub open spec fn spec_draw_tile_run(
    map: TileMap,
    dest: Seq<u8>,
    x: int,
    dx: int,
    y: int,
    h: int,
    x_pos: int,
    y_pos: int,
    layer: nat,
) -> Seq<u8>
    decreases dx - x,
{
    if x >= dx {
        dest
    } else {
        spec_draw_tile_run(
            map,
            spec_draw_tile(map, dest, x, y, h, x_pos, y_pos, layer),
            x + 1,
            dx,
            y,
            h,
            x_pos + 32,
            y_pos,
            layer,
        )
    }
}

/// The screen after the rows `y` up to `dy` were drawn, columns `sx` up to
/// `dx`, for a view whose left edge is at `left`. Each row is drawn as two
/// half rows: the second eight pixels lower and sixteen pixels to the right
/// of the first. The first half of row `y` is drawn at height `y_pos`.
pub open spec fn spec_draw_tile_rows(
    map: TileMap,
    dest: Seq<u8>,
    y: int,
    dy: int,
    sx: int,
    dx: int,
    left: int,
    y_pos: int,
    layer: nat,
) -> Seq<u8>
    decreases dy - y,
{
    if y >= dy {
        dest
    } else {
        let first: Seq<u8> = spec_draw_tile_run(
            map,
            dest,
            sx,
            dx,
            y,
            0,
            sx * 32 - 16 - left,
            y_pos,
            layer,
        );
        let second: Seq<u8> = spec_draw_tile_run(
            map,
            first,
            sx,
            dx,
            y,
            1,
            sx * 32 - left,
            y_pos + 8,
            layer,
        );
        spec_draw_tile_rows(map, second, y + 1, dy, sx, dx, left, y_pos + 16, layer)
    }
}

/// The screen after one layer of the map was drawn for the view `rect`: the
/// rows and columns of tiles that the view touches, and one more at every
/// side, the tile in row `y`, column `x`, half `h` at
/// `(32 x + 16 h - 16, 16 y + 8 h - 8)` of the map.
pub open spec fn spec_draw_map(map: TileMap, dest: Seq<u8>, rect: Rect, layer: nat) -> Seq<u8> {
    let sy: int = trunc_div(rect.y as int, 16) - 1;
    let dy: int = trunc_div(rect.y + rect.h, 16) + 2;
    let sx: int = trunc_div(rect.x as int, 32) - 1;
    let dx: int = trunc_div(rect.x + rect.w, 32) + 2;
    spec_draw_tile_rows(map, dest, sy, dy, sx, dx, rect.x as int, sy * 16 - 8 - rect.y, layer)
}

/// Draws the tiles of one half row (see [`spec_draw_tile_run`]).
pub fn draw_tile_run(
    pixels: &mut [u8],
    map: &TileMap,
    sx: isize,
    dx: isize,
    y: isize,
    h: isize,
    x_pos: isize,
    y_pos: isize,
    layer: usize,
)
    requires
        map.wf(),
        SCREEN_PIXELS <= old(pixels)@.len(),
        -0x400_0000 <= sx,
        dx <= 0x400_0000,
        dx - sx <= 0x200_0000,
        -0x4000_0000 <= x_pos <= 100,
    ensures
        final(pixels)@ == spec_draw_tile_run(
            *map,
            old(pixels)@,
            sx as int,
            dx as int,
            y as int,
            h as int,
            x_pos as int,
            y_pos as int,
            layer as nat,
        ),
        final(pixels)@.len() == old(pixels)@.len(),
{
    let ghost whole = spec_draw_tile_run(
        *map,
        pixels@,
        sx as int,
        dx as int,
        y as int,
        h as int,
        x_pos as int,
        y_pos as int,
        layer as nat,
    );
    let mut x: isize = sx;
    let mut at: isize = x_pos;
    while x < dx
        invariant
            map.wf(),
            SCREEN_PIXELS <= pixels@.len(),
            pixels@.len() == old(pixels)@.len(),
            -0x400_0000 <= sx <= x,
            x <= dx || x == sx,
            dx <= 0x400_0000,
            dx - sx <= 0x200_0000,
            at == x_pos + 32 * (x - sx),
            -0x4000_0000 <= x_pos <= 100,
            whole == spec_draw_tile_run(
                *map,
                old(pixels)@,
                sx as int,
                dx as int,
                y as int,
                h as int,
                x_pos as int,
                y_pos as int,
                layer as nat,
            ),
            spec_draw_tile_run(
                *map,
                pixels@,
                x as int,
                dx as int,
                y as int,
                h as int,
                at as int,
                y_pos as int,
                layer as nat,
            ) == whole,
        decreases dx - x,
    {
        let sprite: Option<&SpriteFrame> = match map.get_tile_sprite(x, y, h, layer) {
            Some(frame) => Some(frame),
            None => map.get_tile_sprite(0, 0, 0, layer),
        };
        match sprite {
            Some(frame) => {
                draw_sprite_frame(frame, pixels, SCREEN_WIDTH, SCREEN_HEIGHT, at, y_pos);
            },
            None => {},
        }
        at = at + 32;
        x = x + 1;
    }
}

/// Draws one layer of the map for the view `rect` (see [`spec_draw_map`]).
pub fn draw_map(pixels: &mut [u8], map: &TileMap, rect: &Rect, layer: usize)
    requires
        map.wf(),
        in_reach(*rect),
        SCREEN_PIXELS <= old(pixels)@.len(),
    ensures
        final(pixels)@ == spec_draw_map(*map, old(pixels)@, *rect, layer as nat),
        final(pixels)@.len() == old(pixels)@.len(),
{
    let sy: isize = rect.y / 16 - 1;
    let dy: isize = (rect.y + rect.h as isize) / 16 + 2;
    let sx: isize = rect.x / 32 - 1;
    let dx: isize = (rect.x + rect.w as isize) / 32 + 2;
    let ghost whole = spec_draw_map(*map, pixels@, *rect, layer as nat);
    let mut y_pos: isize = sy * 16 - 8 - rect.y;
    let mut y: isize = sy;
    while y < dy
        invariant
            map.wf(),
            in_reach(*rect),
            SCREEN_PIXELS <= pixels@.len(),
            pixels@.len() == old(pixels)@.len(),
            sy == trunc_div(rect.y as int, 16) - 1,
            dy == trunc_div(rect.y + rect.h, 16) + 2,
            sx == trunc_div(rect.x as int, 32) - 1,
            dx == trunc_div(rect.x + rect.w, 32) + 2,
            sy <= y <= dy,
            y_pos == y * 16 - 8 - rect.y,
            whole == spec_draw_map(*map, old(pixels)@, *rect, layer as nat),
            spec_draw_tile_rows(
                *map,
                pixels@,
                y as int,
                dy as int,
                sx as int,
                dx as int,
                rect.x as int,
                y_pos as int,
                layer as nat,
            ) == whole,
        decreases dy - y,
    {
        draw_tile_run(pixels, map, sx, dx, y, 0, sx * 32 - 16 - rect.x, y_pos, layer);
        draw_tile_run(pixels, map, sx, dx, y, 1, sx * 32 - rect.x, y_pos + 8, layer);
        y_pos = y_pos + 16;
        y = y + 1;
    }
}

/// Whether the sprite of an event object can be drawn: the object has
/// frames, and its first frame is well formed and no larger than a frame of
/// a sprite chunk can be.
pub open spec fn drawable(sprites: Seq<SpriteFrame>) -> bool {
    sprites.len() > 0 ==> sprites[0].wf() && sprites[0].width <= 0xffff && sprites[0].height
        <= 0xffff
}

/// Where the first frame of an event object is drawn for the view `rect`,
/// if it is drawn at all. Only an object in the hidden state with at least
/// one frame is drawn, and only where the frame meets the screen sideways
/// and, reckoned from its foot, in height.
pub open spec fn object_position(sprites: Seq<SpriteFrame>, object: EventObject, rect: Rect) -> Option<
    (int, int),
> {
    if object.state != ObjectState::Hidden.spec_code() || sprites.len() == 0 {
        None
    } else {
        let width: int = sprites[0].width as int;
        let height: int = sprites[0].height as int;
        let x: int = object.x - rect.x - width / 2;
        let y: int = object.y - rect.y + (object.layer * 8 + 9);
        let vy: int = y - height - object.layer * 8 + 2;
        if x < -width || x >= 320 || vy >= 200 || vy < -height {
            None
        } else {
            Some((x, y - height - object.layer))
        }
    }
}

/// The screen after one event object was drawn.
pub open spec fn spec_draw_object(
    sprites: Seq<SpriteFrame>,
    object: EventObject,
    rect: Rect,
    dest: Seq<u8>,
) -> Seq<u8> {
    match object_position(sprites, object, rect) {
        Some((x, y)) => blit(sprites[0], dest, SCREEN_WIDTH as nat, SCREEN_HEIGHT as nat, x, y),
        None => dest,
    }
}

/// The screen after the event objects `i` up to `count` of a scene were
/// drawn: object `i` of the scene is event object `from + i`, with the
/// frames `sprites[i]`.
pub open spec fn spec_draw_objects(
    sprites: Seq<Vec<SpriteFrame>>,
    objects: Seq<EventObject>,
    rect: Rect,
    from: int,
    i: int,
    count: int,
    dest: Seq<u8>,
) -> Seq<u8>
    decreases count - i,
{
    if i >= count {
        dest
    } else {
        spec_draw_objects(
            sprites,
            objects,
            rect,
            from,
            i + 1,
            count,
            spec_draw_object(sprites[i]@, objects[from + i], rect, dest),
        )
    }
}

/// Draws the event objects of a scene (see [`spec_draw_objects`]).
pub fn draw_scence_sprites(
    pixels: &mut [u8],
    sprites: &Vec<Vec<SpriteFrame>>,
    event_objects: &Vec<EventObject>,
    rect: &Rect,
    evt_obj_from: usize,
    evt_obj_count: usize,
)
    requires
        in_reach(*rect),
        SCREEN_PIXELS <= old(pixels)@.len(),
        evt_obj_from + evt_obj_count <= event_objects@.len(),
        evt_obj_count <= sprites@.len(),
        forall|i: int| 0 <= i < evt_obj_count ==> drawable((#[trigger] sprites@[i])@),
    ensures
        final(pixels)@ == spec_draw_objects(
            sprites@,
            event_objects@,
            *rect,
            evt_obj_from as int,
            0,
            evt_obj_count as int,
            old(pixels)@,
        ),
        final(pixels)@.len() == old(pixels)@.len(),
{
    let ghost whole = spec_draw_objects(
        sprites@,
        event_objects@,
        *rect,
        evt_obj_from as int,
        0,
        evt_obj_count as int,
        pixels@,
    );
    assert(event_objects@.len() == event_objects.len());
    let mut i: usize = 0;
    while i < evt_obj_count
        invariant
            i <= evt_obj_count,
            event_objects@.len() <= usize::MAX,
            in_reach(*rect),
            SCREEN_PIXELS <= pixels@.len(),
            pixels@.len() == old(pixels)@.len(),
            evt_obj_from + evt_obj_count <= event_objects@.len(),
            evt_obj_count <= sprites@.len(),
            forall|k: int| 0 <= k < evt_obj_count ==> drawable((#[trigger] sprites@[k])@),
            whole == spec_draw_objects(
                sprites@,
                event_objects@,
                *rect,
                evt_obj_from as int,
                0,
                evt_obj_count as int,
                old(pixels)@,
            ),
            spec_draw_objects(
                sprites@,
                event_objects@,
                *rect,
                evt_obj_from as int,
                i as int,
                evt_obj_count as int,
                pixels@,
            ) == whole,
        decreases evt_obj_count - i,
    {
        let object: &EventObject = &event_objects[evt_obj_from + i];
        let frames: &Vec<SpriteFrame> = &sprites[i];
        assert(drawable(sprites@[i as int]@));
        if object.state == ObjectState::Hidden.code() && frames.len() > 0 {
            let frame: &SpriteFrame = &frames[0];
            let width: isize = frame.width as isize;
            let height: isize = frame.height as isize;
            let layer: isize = object.layer as isize;
            let x: isize = object.x as isize - rect.x - width / 2;
            let y: isize = object.y as isize - rect.y + (layer * 8 + 9);
            let vy: isize = y - height - layer * 8 + 2;
            if !(x < -width || x >= 320 || vy >= 200 || vy < -height) {
                draw_sprite_frame(
                    frame,
                    pixels,
                    SCREEN_WIDTH,
                    SCREEN_HEIGHT,
                    x,
                    y - height - layer,
                );
            }
        }
        i += 1;
    }
}

/// The caption that names a scene: two characters and the number of the
/// scene.
pub open spec fn spec_scene_caption(scene_num: u16) -> Seq<char> {
    "場景"@ + spec_decimal(scene_num as nat)
}

/// The caption that gives a position: two characters, the two coordinates
/// and a comma between them.
pub open spec fn spec_position_caption(x: isize, y: isize) -> Seq<char> {
    "坐標"@ + spec_signed_decimal(x as int) + "，"@ + spec_signed_decimal(y as int)
}

/// The caption that names a scene.
pub fn scene_caption(scene_num: u16) -> (s: String)
    ensures
        s@ == spec_scene_caption(scene_num),
        s@.len() <= 7,
{
    proof {
        reveal_strlit("場景");
        assert(pow10(5) == 100_000) by {
            reveal_with_fuel(pow10, 6);
        }
        lemma_decimal_length(scene_num as nat, 5);
    }
    let digits: String = decimal_text(scene_num as u64);
    String::from_str("場景").concat(digits.as_str())
}

/// The caption that gives a position.
pub fn position_caption(x: isize, y: isize) -> (s: String)
    ensures
        s@ == spec_position_caption(x, y),
        s@.len() <= 45,
{
    proof {
        reveal_strlit("坐標");
        reveal_strlit("，");
    }
    let first: String = signed_decimal_text(x);
    let second: String = signed_decimal_text(y);
    String::from_str("坐標").concat(first.as_str()).concat("，").concat(second.as_str())
}

/// Whether the scene of a state can be made: everything to be drawn is well
/// formed, the view is within reach, the state is in a scene that has a
/// scene after it, and the event objects that are drawn for the scene are
/// there, with their sprites. These are as many as the scene has, counted
/// from the number of the scene less one.
pub open spec fn scene_makable(resource: Resource, state: GameState, ui: UI, viewport: Pos) -> bool {
    let from: int = state.scene_num - 1;
    let count: int = state.scenes@[from + 1].event_object_index - state.scenes@[from].event_object_index;
    &&& resource.wf()
    &&& text_drawable(ui, 0, 18, 45)
    &&& in_reach(Rect { x: viewport.x, y: viewport.y, w: SCREEN_WIDTH, h: SCREEN_HEIGHT })
    &&& 1 <= state.scene_num < state.scenes@.len()
    &&& 0 <= count
    &&& from + count <= state.event_objects@.len()
    &&& count <= resource.event_object_sprites@.len()
}

/// The screen after the scene of a state was made: the scene drawn for the
/// view (see [`spec_draw_scene`]), the caption of the scene in the top left
/// corner, and the caption of the position of the view below it, both in
/// colour 15 with a shadow.
pub open spec fn spec_make_scence(
    resource: Resource,
    state: GameState,
    ui: UI,
    viewport: Pos,
    dest: Seq<u8>,
) -> Seq<u8> {
    let rect: Rect = Rect { x: viewport.x, y: viewport.y, w: SCREEN_WIDTH, h: SCREEN_HEIGHT };
    let from: int = state.scene_num - 1;
    let count: int = state.scenes@[from + 1].event_object_index - state.scenes@[from].event_object_index;
    spec_draw_text(
        ui,
        spec_draw_text(
            ui,
            spec_draw_scene(resource, state.event_objects@, rect, from, count, dest),
            320,
            200,
            0,
            0,
            spec_scene_caption(state.scene_num),
            0,
            0xf,
            true,
        ),
        320,
        200,
        0,
        18,
        spec_position_caption(viewport.x, viewport.y),
        0,
        0xf,
        true,
    )
}

/// Makes the scene of a state on the screen (see [`spec_make_scence`]).
pub fn make_scence(
    pixels: &mut [u8],
    resource: &Resource,
    state: &GameState,
    ui: &UI,
    viewport: &Pos,
)
    requires
        scene_makable(*resource, *state, *ui, *viewport),
        SCREEN_PIXELS <= old(pixels)@.len(),
    ensures
        final(pixels)@ == spec_make_scence(*resource, *state, *ui, *viewport, old(pixels)@),
        final(pixels)@.len() == old(pixels)@.len(),
{
    let rect = Rect { x: viewport.x, y: viewport.y, w: SCREEN_WIDTH, h: SCREEN_HEIGHT };
    let event_objects_from: usize = (state.scene_num as usize) - 1;
    let event_objects_count: u16 = state.scenes[event_objects_from + 1].event_object_index
        - state.scenes[event_objects_from].event_object_index;
    draw_scene(
        pixels,
        resource,
        &state.event_objects,
        &rect,
        event_objects_from,
        event_objects_count as usize,
    );
    let scene: String = scene_caption(state.scene_num);
    draw_text(ui, pixels, 320, 200, 0, 0, scene.as_str(), 0xf, true);
    let position: String = position_caption(viewport.x, viewport.y);
    draw_text(ui, pixels, 320, 200, 0, 18, position.as_str(), 0xf, true);
}

} // verus!
