//! What the game needs to show a scene: the map, the sprites of the objects
//! that stand on it, and the view that moves over it.

use vstd::prelude::*;
use crate::data::{EventObject, GameState, Scene};
use crate::error::Error;
use crate::map::TileMap;
use crate::mkf::{spec_read_chunk_decompressed, MKF};
use crate::scene::{
    draw_map, draw_scence_sprites, drawable, in_reach, spec_draw_map, spec_draw_objects,
    SCREEN_PIXELS,
};
use crate::sprite::{frames_of, sprite_get_frames, SpriteFrame};
use crate::utils::{Dir, Rect};

verus! {

/// How far the view moves in one step, in pixels.
pub const VIEW_STEP: isize = 30;

/// The map of a scene and the sprites of its event objects.
pub struct Resource {
    pub map: TileMap,
    pub event_object_sprites: Vec<Vec<SpriteFrame>>,
}

/// The event objects of the scene at position `i`: the first of them and
/// their number. They lie between the index that the scene gives and the
/// index that the next scene gives.
///
/// `Error::Data`: the next scene gives a smaller index. `Error::Index`: the
/// state has fewer event objects.
pub open spec fn scene_objects(scenes: Seq<Scene>, objects: Seq<EventObject>, i: int) -> Result<
    (int, int),
    Error,
> {
    let from: int = scenes[i].event_object_index as int;
    let to: int = scenes[i + 1].event_object_index as int;
    if to < from {
        Err(Error::Data)
    } else if to > objects.len() {
        Err(Error::Index)
    } else {
        Ok((from, to - from))
    }
}

/// The first of `count` event objects from `from` on whose sprite chunk
/// cannot be read and decompressed, with the error.
pub open spec fn first_sprite_failure(
    mgo: Seq<u8>,
    objects: Seq<EventObject>,
    from: int,
    count: int,
) -> Option<Error>
    decreases count,
{
    if count <= 0 {
        None
    } else if first_sprite_failure(mgo, objects, from, count - 1) is Some {
        first_sprite_failure(mgo, objects, from, count - 1)
    } else {
        match spec_read_chunk_decompressed(mgo, objects[from + count - 1].sprite_num as nat) {
            Err(e) => Some(e),
            Ok(_) => None,
        }
    }
}

/// Once the sprite of an object cannot be read, the first failure stays
/// what it is.
pub proof fn lemma_sprite_failure_stays(
    mgo: Seq<u8>,
    objects: Seq<EventObject>,
    from: int,
    count: int,
    upto: int,
)
    requires
        0 <= count <= upto,
        first_sprite_failure(mgo, objects, from, count) is Some,
    ensures
        first_sprite_failure(mgo, objects, from, upto) == first_sprite_failure(
            mgo,
            objects,
            from,
            count,
        ),
    decreases upto - count,
{
    if count < upto {
        lemma_sprite_failure_stays(mgo, objects, from, count, upto - 1);
    }
}

/// Reads chunk `index` of an archive of sprites, decompresses it and decodes
/// its frames.
pub fn load_sprite(mkf: &MKF, index: u32) -> (r: Result<Vec<SpriteFrame>, Error>)
    ensures
        match r {
            Ok(frames) => spec_read_chunk_decompressed(mkf@, index as nat) is Ok && frames_of(
                spec_read_chunk_decompressed(mkf@, index as nat)->Ok_0,
                frames@,
            ) && drawable(frames@),
            Err(e) => spec_read_chunk_decompressed(mkf@, index as nat) == Err::<Seq<u8>, Error>(e),
        },
{
    let chunk: Vec<u8> = mkf.read_chunk_decompressed(index)?;
    match sprite_get_frames(chunk.as_slice()) {
        Ok(frames) => {
            assert(drawable(frames@)) by {
                if frames@.len() > 0 {
                    assert(frames@[0].wf());
                }
            }
            Ok(frames)
        },
        Err(e) => {
            // decoding the frames of a chunk never fails
            assert(false);
            Err(e)
        },
    }
}

impl Resource {
    /// A resource is well formed when its map is and every sprite of an
    /// object can be drawn.
    pub open spec fn wf(&self) -> bool {
        &&& self.map.wf()
        &&& forall|i: int|
            0 <= i < self.event_object_sprites@.len() ==> drawable(
                (#[trigger] self.event_object_sprites@[i])@,
            )
    }

    /// Why the resource of the scene of a state cannot be loaded, if it
    /// cannot, in this order: the state is in no scene (`Error::Index`); the
    /// map of the scene cannot be loaded; there is no scene after it
    /// (`Error::Index`); the event objects of the scene are not there (see
    /// [`scene_objects`]); the sprite of one of them cannot be read.
    pub open spec fn load_failure(
        map_file: Seq<u8>,
        gop_file: Seq<u8>,
        mgo_file: Seq<u8>,
        state: GameState,
    ) -> Option<Error> {
        if state.scene_num < 1 || state.scene_num > state.scenes@.len() {
            Some(Error::Index)
        } else {
            let i: int = state.scene_num - 1;
            if TileMap::load_failure(map_file, gop_file, state.scenes@[i].map_num as nat) is Some {
                TileMap::load_failure(map_file, gop_file, state.scenes@[i].map_num as nat)
            } else if i + 1 >= state.scenes@.len() {
                Some(Error::Index)
            } else {
                match scene_objects(state.scenes@, state.event_objects@, i) {
                    Err(e) => Some(e),
                    Ok((from, count)) => first_sprite_failure(
                        mgo_file,
                        state.event_objects@,
                        from,
                        count,
                    ),
                }
            }
        }
    }

    /// Loads the map of the scene that the state is in and the sprites of
    /// the event objects of the scene.
    pub fn load(map_mkf: &MKF, gop_mkf: &MKF, mgo_mkf: &MKF, state: &GameState) -> (r: Result<
        Resource,
        Error,
    >)
        ensures
            match r {
                Ok(res) => {
                    &&& Resource::load_failure(map_mkf@, gop_mkf@, mgo_mkf@, *state) is None
                    &&& res.wf()
                    &&& res.map.map_num == state.scenes@[state.scene_num - 1].map_num
                    &&& scene_objects(
                        state.scenes@,
                        state.event_objects@,
                        state.scene_num - 1,
                    ) matches Ok((from, count)) && res.event_object_sprites@.len() == count
                        && forall|k: int|
                        0 <= k < count ==> frames_of(
                            spec_read_chunk_decompressed(
                                mgo_mkf@,
                                state.event_objects@[from + k].sprite_num as nat,
                            )->Ok_0,
                            (#[trigger] res.event_object_sprites@[k])@,
                        )
                },
                Err(e) => Resource::load_failure(map_mkf@, gop_mkf@, mgo_mkf@, *state) == Some(e),
            },
    {
        if state.scene_num < 1 || state.scene_num as usize > state.scenes.len() {
            return Err(Error::Index);
        }
        let i: usize = state.scene_num as usize - 1;
        let map: TileMap = TileMap::load(map_mkf, gop_mkf, state.scenes[i].map_num as u32)?;
        if i + 1 >= state.scenes.len() {
            return Err(Error::Index);
        }
        let index: u16 = state.scenes[i].event_object_index;
        let next: u16 = state.scenes[i + 1].event_object_index;
        if next < index {
            return Err(Error::Data);
        }
        if next as usize > state.event_objects.len() {
            return Err(Error::Index);
        }
        let count: usize = (next - index) as usize;
        let from: usize = index as usize;
        let mut sprites: Vec<Vec<SpriteFrame>> = Vec::new();
        let mut k: usize = 0;
        while k < count
            invariant
                k <= count,
                from + count <= state.event_objects@.len(),
                sprites@.len() == k,
                state.event_objects@.len() <= usize::MAX,
                Resource::load_failure(map_mkf@, gop_mkf@, mgo_mkf@, *state) == first_sprite_failure(
                    mgo_mkf@,
                    state.event_objects@,
                    from as int,
                    count as int,
                ),
                first_sprite_failure(mgo_mkf@, state.event_objects@, from as int, k as int) is None,
                forall|j: int| 0 <= j < k ==> drawable((#[trigger] sprites@[j])@),
                forall|j: int|
                    0 <= j < k ==> frames_of(
                        spec_read_chunk_decompressed(
                            mgo_mkf@,
                            state.event_objects@[from + j].sprite_num as nat,
                        )->Ok_0,
                        (#[trigger] sprites@[j])@,
                    ),
            decreases count - k,
        {
            let sprite_num: u16 = state.event_objects[from + k].sprite_num;
            let frames: Vec<SpriteFrame> = match load_sprite(mgo_mkf, sprite_num as u32) {
                Ok(frames) => frames,
                Err(e) => {
                    proof {
                        assert(first_sprite_failure(
                            mgo_mkf@,
                            state.event_objects@,
                            from as int,
                            k as int + 1,
                        ) == Some(e));
                        lemma_sprite_failure_stays(
                            mgo_mkf@,
                            state.event_objects@,
                            from as int,
                            k as int + 1,
                            count as int,
                        );
                    }
                    return Err(e);
                },
            };
            sprites.push(frames);
            k += 1;
        }
        Ok(Resource { map, event_object_sprites: sprites })
    }
}

/// The view after one step in a direction: 30 pixels up for north, down for
/// south, right for east, left for west; unmoved for no direction.
pub open spec fn spec_move_viewport(viewport: Rect, dir: Dir) -> Rect {
    match dir {
        Dir::North => Rect { y: (viewport.y - VIEW_STEP) as isize, ..viewport },
        Dir::East => Rect { x: (viewport.x + VIEW_STEP) as isize, ..viewport },
        Dir::South => Rect { y: (viewport.y + VIEW_STEP) as isize, ..viewport },
        Dir::West => Rect { x: (viewport.x - VIEW_STEP) as isize, ..viewport },
        Dir::Unknown => viewport,
    }
}

/// Moves the view one step in a direction.
pub fn move_viewport(viewport: Rect, dir: Dir) -> (r: Rect)
    requires
        isize::MIN + VIEW_STEP <= viewport.x <= isize::MAX - VIEW_STEP,
        isize::MIN + VIEW_STEP <= viewport.y <= isize::MAX - VIEW_STEP,
    ensures
        r == spec_move_viewport(viewport, dir),
{
    match dir {
        Dir::North => Rect { x: viewport.x, y: viewport.y - VIEW_STEP, w: viewport.w, h: viewport.h },
        Dir::East => Rect { x: viewport.x + VIEW_STEP, y: viewport.y, w: viewport.w, h: viewport.h },
        Dir::South => Rect { x: viewport.x, y: viewport.y + VIEW_STEP, w: viewport.w, h: viewport.h },
        Dir::West => Rect { x: viewport.x - VIEW_STEP, y: viewport.y, w: viewport.w, h: viewport.h },
        Dir::Unknown => viewport,
    }
}

/// The screen after a scene was drawn: the ground of the map, the layer
/// above it, and the event objects.
pub open spec fn spec_draw_scene(
    resource: Resource,
    objects: Seq<EventObject>,
    viewport: Rect,
    from: int,
    count: int,
    dest: Seq<u8>,
) -> Seq<u8> {
    spec_draw_objects(
        resource.event_object_sprites@,
        objects,
        viewport,
        from,
        0,
        count,
        spec_draw_map(resource.map, spec_draw_map(resource.map, dest, viewport, 0), viewport, 1),
    )
}

/// Draws a scene (see [`spec_draw_scene`]).
pub fn draw_scene(
    pixels: &mut [u8],
    resource: &Resource,
    event_objects: &Vec<EventObject>,
    viewport: &Rect,
    from: usize,
    count: usize,
)
    requires
        resource.wf(),
        in_reach(*viewport),
        SCREEN_PIXELS <= old(pixels)@.len(),
        from + count <= event_objects@.len(),
        count <= resource.event_object_sprites@.len(),
    ensures
        final(pixels)@ == spec_draw_scene(
            *resource,
            event_objects@,
            *viewport,
            from as int,
            count as int,
            old(pixels)@,
        ),
        final(pixels)@.len() == old(pixels)@.len(),
{
    draw_map(pixels, &resource.map, viewport, 0);
    draw_map(pixels, &resource.map, viewport, 1);
    draw_scence_sprites(pixels, &resource.event_object_sprites, event_objects, viewport, from, count);
}

} // verus!
