//! The opening of the game: the splash screen that scrolls a landscape into
//! view while cranes fly over it and the title is unveiled, and the menus
//! that follow.

use vstd::prelude::*;
use crate::error::Error;
use crate::mkf::{spec_read_chunk_decompressed, MKF};
use crate::scene::{SCREEN_HEIGHT, SCREEN_PIXELS, SCREEN_WIDTH};
use crate::sprite::{
    blit, decodes_to, draw_sprite_frame, frame_bytes, frame_failure, sprite_get_frame, SpriteFrame,
};
use crate::ui::{MenuItem, LOADMENU_LABEL_SLOT_FIRST, MAINMENU_LABEL_LOADGAME, MAINMENU_LABEL_NEWGAME};
use crate::utils::Pos;

verus! {

/// The bitmap that scrolls in from above.
pub const BITMAPNUM_SPLASH_UP: u32 = 0x26;

/// The bitmap that scrolls out below.
pub const BITMAPNUM_SPLASH_DOWN: u32 = 0x27;

/// The sprite of the title.
pub const SPRITENUM_SPLASH_TITLE: u32 = 0x47;

/// The sprite of the crane.
pub const SPRITENUM_SPLASH_CRANE: u32 = 0x49;

/// The music of the title.
pub const NUM_RIX_TITLE: u32 = 0x05;

/// Width of the window in pixels.
pub const WIDTH: usize = 320;

/// Height of the window in pixels.
pub const HEIGHT: usize = 200;

/// Cranes on the splash screen, and frames of a crane's flight.
pub const CRANES: usize = 8;

/// Frames between two moves of the cranes.
pub const CRANE_PERIOD: u64 = 5;

/// Milliseconds over which the splash screen fades in.
pub const FADE_MILLIS: u32 = 15000;

/// `rand::random`, for a `usize`: any value.
#[verifier::external_body]
fn random_usize() -> usize {
    rand::random::<usize>()
}

/// `rand::random`, for a `u32`: any value.
#[verifier::external_body]
fn random_u32() -> u32 {
    rand::random::<u32>()
}

/// A crane on the splash screen.
#[derive(Debug, Clone, Copy, PartialEq, Eq, Structural)]
pub struct Crane {
    pub x: isize,
    pub y: isize,
    pub sprite_id: u32,
}

impl Crane {
    /// The crane that three numbers place: right of the screen by up to a
    /// screen's width, in the middle heights, somewhere in its flight.
    pub open spec fn spec_placed(a: usize, b: usize, c: u32) -> Crane {
        Crane {
            x: (a % 320 + 320) as isize,
            y: (b % 80 + 80) as isize,
            sprite_id: (c % 8) as u32,
        }
    }

    /// The crane that three numbers place.
    pub fn placed(a: usize, b: usize, c: u32) -> (crane: Crane)
        ensures
            crane == Crane::spec_placed(a, b, c),
            crane.starts(),
    {
        Crane { x: (a % 320 + 320) as isize, y: (b % 80 + 80) as isize, sprite_id: c % 8 }
    }

    /// Where a crane may start.
    pub open spec fn starts(self) -> bool {
        320 <= self.x < 640 && 80 <= self.y < 160 && self.sprite_id < 8
    }

    /// The crane one move later: two pixels further left, one frame further
    /// in its flight.
    pub open spec fn spec_moved(self) -> Crane {
        Crane { x: (self.x - 2) as isize, y: self.y, sprite_id: ((self.sprite_id + 1) % 8) as u32 }
    }

    /// Whether the crane is somewhere in its flight.
    pub open spec fn flies(self) -> bool {
        self.sprite_id < 8
    }

    /// Whether the crane can move further left.
    pub open spec fn movable(self) -> bool {
        self.x >= isize::MIN + 2 && self.flies()
    }
}

/// Eight cranes placed at random.
pub fn random_cranes() -> (cranes: Vec<Crane>)
    ensures
        cranes@.len() == CRANES,
        forall|i: int| 0 <= i < CRANES ==> (#[trigger] cranes@[i]).starts(),
{
    let mut cranes: Vec<Crane> = Vec::new();
    let mut i: usize = 0;
    while i < CRANES
        invariant
            i <= CRANES,
            cranes@.len() == i,
            forall|k: int| 0 <= k < i ==> (#[trigger] cranes@[k]).starts(),
        decreases CRANES - i,
    {
        let a: usize = random_usize();
        let b: usize = random_usize();
        let c: u32 = random_u32();
        cranes.push(Crane::placed(a, b, c));
        i += 1;
    }
    cranes
}

/// Moves every crane (see [`Crane::spec_moved`]).
pub fn move_cranes(cranes: &mut Vec<Crane>)
    requires
        forall|i: int| 0 <= i < old(cranes)@.len() ==> (#[trigger] old(cranes)@[i]).movable(),
    ensures
        final(cranes)@.len() == old(cranes)@.len(),
        forall|i: int|
            0 <= i < old(cranes)@.len() ==> #[trigger] final(cranes)@[i] == old(
                cranes,
            )@[i].spec_moved(),
        forall|i: int| 0 <= i < final(cranes)@.len() ==> (#[trigger] final(cranes)@[i]).flies(),
{
    let n: usize = cranes.len();
    let mut i: usize = 0;
    while i < n
        invariant
            i <= n,
            n == cranes@.len(),
            cranes@.len() == old(cranes)@.len(),
            forall|k: int| 0 <= k < i ==> #[trigger] cranes@[k] == old(cranes)@[k].spec_moved(),
            forall|k: int| i <= k < n ==> #[trigger] cranes@[k] == old(cranes)@[k],
            forall|k: int| 0 <= k < n ==> (#[trigger] old(cranes)@[k]).movable(),
        decreases n - i,
    {
        let crane: Crane = cranes[i];
        assert(old(cranes)@[i as int].movable());
        cranes[i] = Crane { x: crane.x - 2, y: crane.y, sprite_id: (crane.sprite_id + 1) % 8 };
        i += 1;
    }
}

/// How much of the title shows one step later: three rows more, up to the
/// whole height.
pub open spec fn spec_unveil(shown: u32, whole: u32) -> u32 {
    if shown < whole {
        if whole - shown <= 3 {
            whole
        } else {
            (shown + 3) as u32
        }
    } else {
        shown
    }
}

/// How much of the title shows one step later.
pub fn unveil(shown: u32, whole: u32) -> (r: u32)
    ensures
        r == spec_unveil(shown, whole),
        shown <= whole ==> r <= whole,
{
    if shown < whole {
        if whole - shown <= 3 {
            whole
        } else {
            shown + 3
        }
    } else {
        shown
    }
}

/// The screen with the landscape scrolled in by `h_offset` rows: the lowest
/// `h_offset` rows of the upper bitmap above the highest rows of the lower
/// one.
pub open spec fn spec_landscape(dest: Seq<u8>, up: Seq<u8>, down: Seq<u8>, h_offset: int) -> Seq<
    u8,
> {
    Seq::new(
        dest.len(),
        |i: int|
            if i < h_offset * SCREEN_WIDTH {
                up[(SCREEN_HEIGHT - h_offset) * SCREEN_WIDTH + i]
            } else if i < SCREEN_PIXELS {
                down[i - h_offset * SCREEN_WIDTH]
            } else {
                dest[i]
            },
    )
}

/// Draws the landscape scrolled in by `h_offset` rows.
pub fn draw_landscape(pixels: &mut [u8], up: &[u8], down: &[u8], h_offset: usize)
    requires
        h_offset <= SCREEN_HEIGHT,
        SCREEN_PIXELS <= old(pixels)@.len(),
        SCREEN_PIXELS <= up@.len(),
        SCREEN_PIXELS <= down@.len(),
    ensures
        final(pixels)@ == spec_landscape(old(pixels)@, up@, down@, h_offset as int),
        final(pixels)@.len() == old(pixels)@.len(),
{
    let ghost before: Seq<u8> = pixels@;
    let ghost after: Seq<u8> = spec_landscape(before, up@, down@, h_offset as int);
    let split: usize = h_offset * SCREEN_WIDTH;
    let skipped: usize = (SCREEN_HEIGHT - h_offset) * SCREEN_WIDTH;
    let mut i: usize = 0;
    while i < SCREEN_PIXELS
        invariant
            i <= SCREEN_PIXELS,
            h_offset <= SCREEN_HEIGHT,
            split == h_offset * SCREEN_WIDTH,
            skipped == (SCREEN_HEIGHT - h_offset) * SCREEN_WIDTH,
            SCREEN_PIXELS <= before.len(),
            SCREEN_PIXELS <= up@.len(),
            SCREEN_PIXELS <= down@.len(),
            pixels@.len() == before.len(),
            after == spec_landscape(before, up@, down@, h_offset as int),
            forall|k: int| 0 <= k < i ==> pixels@[k] == after[k],
            forall|k: int| i <= k < before.len() ==> pixels@[k] == before[k],
        decreases SCREEN_PIXELS - i,
    {
        if i < split {
            pixels[i] = up[skipped + i];
        } else {
            pixels[i] = down[i - split];
        }
        i += 1;
    }
    assert(pixels@ =~= after);
}

/// The screen after the cranes from `i` on were drawn, each with the frame
/// of its flight.
pub open spec fn spec_draw_cranes(
    cranes: Seq<Crane>,
    frames: Seq<SpriteFrame>,
    i: int,
    dest: Seq<u8>,
) -> Seq<u8>
    decreases cranes.len() - i,
{
    if i < 0 || i >= cranes.len() {
        dest
    } else {
        spec_draw_cranes(
            cranes,
            frames,
            i + 1,
            blit(
                frames[cranes[i].sprite_id as int],
                dest,
                SCREEN_WIDTH as nat,
                SCREEN_HEIGHT as nat,
                cranes[i].x as int,
                cranes[i].y as int,
            ),
        )
    }
}

/// The splash screen: what it shows and how far it has come.
pub struct Splash {
    /// The bitmap that scrolls in from above.
    pub up: Vec<u8>,
    /// The bitmap that scrolls out below.
    pub down: Vec<u8>,
    /// The frames of a crane's flight.
    pub crane_sprite: Vec<SpriteFrame>,
    /// The title, as much of it as shows.
    pub title: SpriteFrame,
    /// The height of the whole title.
    pub title_height: u32,
    /// The cranes.
    pub cranes: Vec<Crane>,
    /// How many rows the landscape has scrolled in.
    pub h_offset: usize,
    /// How many frames were shown.
    pub frame: u64,
}

/// Where the title is drawn.
pub const TITLE_X: isize = 250;

pub const TITLE_Y: isize = 5;

impl Splash {
    /// The splash screen is well formed when its bitmaps fill the screen,
    /// its frames are well formed, there are frames for the whole flight of
    /// a crane, no more of the title shows than there is, and the landscape
    /// has not scrolled beyond the screen.
    pub open spec fn wf(&self) -> bool {
        &&& SCREEN_PIXELS <= self.up@.len()
        &&& SCREEN_PIXELS <= self.down@.len()
        &&& self.crane_sprite@.len() == CRANES
        &&& forall|i: int| 0 <= i < CRANES ==> (#[trigger] self.crane_sprite@[i]).wf()
        &&& self.title@.len() >= self.title.width * self.title_height
        &&& self.title.height <= self.title_height
        &&& forall|i: int| 0 <= i < self.cranes@.len() ==> (#[trigger] self.cranes@[i]).flies()
        &&& self.h_offset <= SCREEN_HEIGHT
    }

    /// Whether the splash screen can take one more step: the count of frames
    /// and the cranes have room to move.
    pub open spec fn steppable(&self) -> bool {
        &&& self.frame < u64::MAX
        &&& forall|i: int| 0 <= i < self.cranes@.len() ==> (#[trigger] self.cranes@[i]).movable()
    }

    /// Whether the splash screen can take one more step.
    pub fn can_step(&self) -> (r: bool)
        requires
            self.wf(),
        ensures
            r == self.steppable(),
    {
        if self.frame == u64::MAX {
            return false;
        }
        let n: usize = self.cranes.len();
        let mut i: usize = 0;
        while i < n
            invariant
                i <= n,
                n == self.cranes@.len(),
                self.wf(),
                forall|k: int| 0 <= k < i ==> (#[trigger] self.cranes@[k]).movable(),
            decreases n - i,
        {
            assert(self.cranes@[i as int].flies());
            if self.cranes[i].x < isize::MIN + 2 {
                assert(!self.cranes@[i as int].movable());
                return false;
            }
            i += 1;
        }
        true
    }

    /// Why the splash screen cannot be loaded, if it cannot: the first error
    /// in reading and decompressing the lower bitmap, the upper bitmap, the
    /// title and the crane, in decoding the first eight frames of the crane
    /// and the first frame of the title; `Error::Data` for a bitmap that
    /// does not fill the screen.
    pub open spec fn load_failure(fbp: Seq<u8>, mgo: Seq<u8>) -> Option<Error> {
        let down = spec_read_chunk_decompressed(fbp, BITMAPNUM_SPLASH_DOWN as nat);
        let up = spec_read_chunk_decompressed(fbp, BITMAPNUM_SPLASH_UP as nat);
        let title = spec_read_chunk_decompressed(mgo, SPRITENUM_SPLASH_TITLE as nat);
        let crane = spec_read_chunk_decompressed(mgo, SPRITENUM_SPLASH_CRANE as nat);
        if down is Err {
            Some(down->Err_0)
        } else if up is Err {
            Some(up->Err_0)
        } else if title is Err {
            Some(title->Err_0)
        } else if crane is Err {
            Some(crane->Err_0)
        } else if first_frame_failure(crane->Ok_0, CRANES as int) is Some {
            first_frame_failure(crane->Ok_0, CRANES as int)
        } else if frame_failure(title->Ok_0, 0) is Some {
            frame_failure(title->Ok_0, 0)
        } else if down->Ok_0.len() < SCREEN_PIXELS || up->Ok_0.len() < SCREEN_PIXELS {
            Some(Error::Data)
        } else {
            None
        }
    }

    /// Loads the splash screen from the archive of bitmaps and the archive
    /// of sprites: nothing of the landscape and of the title shows yet, and
    /// the cranes are placed at random.
    pub fn load(fbp: &MKF, mgo: &MKF) -> (r: Result<Splash, Error>)
        ensures
            match r {
                Ok(s) => {
                    &&& Splash::load_failure(fbp@, mgo@) is None
                    &&& s.wf()
                    &&& s.down@ == spec_read_chunk_decompressed(
                        fbp@,
                        BITMAPNUM_SPLASH_DOWN as nat,
                    )->Ok_0
                    &&& s.up@ == spec_read_chunk_decompressed(fbp@, BITMAPNUM_SPLASH_UP as nat)->Ok_0
                    &&& forall|i: int|
                        0 <= i < CRANES ==> decodes_to(
                            frame_bytes(
                                spec_read_chunk_decompressed(
                                    mgo@,
                                    SPRITENUM_SPLASH_CRANE as nat,
                                )->Ok_0,
                                i as nat,
                            ),
                            #[trigger] s.crane_sprite@[i],
                        )
                    &&& s.title.height == 0
                    &&& exists|whole: SpriteFrame|
                        decodes_to(
                            frame_bytes(
                                spec_read_chunk_decompressed(
                                    mgo@,
                                    SPRITENUM_SPLASH_TITLE as nat,
                                )->Ok_0,
                                0,
                            ),
                            whole,
                        ) && whole@ == s.title@ && whole.width == s.title.width && whole.height
                            == s.title_height
                    &&& s.cranes@.len() == CRANES
                    &&& forall|i: int| 0 <= i < CRANES ==> (#[trigger] s.cranes@[i]).starts()
                    &&& s.h_offset == 0
                    &&& s.frame == 0
                },
                Err(e) => Splash::load_failure(fbp@, mgo@) == Some(e),
            },
    {
        let down: Vec<u8> = fbp.read_chunk_decompressed(BITMAPNUM_SPLASH_DOWN)?;
        let up: Vec<u8> = fbp.read_chunk_decompressed(BITMAPNUM_SPLASH_UP)?;
        let title_chunk: Vec<u8> = mgo.read_chunk_decompressed(SPRITENUM_SPLASH_TITLE)?;
        let crane_chunk: Vec<u8> = mgo.read_chunk_decompressed(SPRITENUM_SPLASH_CRANE)?;
        let mut crane_sprite: Vec<SpriteFrame> = Vec::new();
        let mut i: u32 = 0;
        while i < CRANES as u32
            invariant
                i <= CRANES,
                crane_sprite@.len() == i,
                spec_read_chunk_decompressed(fbp@, BITMAPNUM_SPLASH_DOWN as nat) is Ok,
                spec_read_chunk_decompressed(fbp@, BITMAPNUM_SPLASH_UP as nat) is Ok,
                spec_read_chunk_decompressed(mgo@, SPRITENUM_SPLASH_TITLE as nat) is Ok,
                spec_read_chunk_decompressed(mgo@, SPRITENUM_SPLASH_CRANE as nat) == Ok::<
                    Seq<u8>,
                    Error,
                >(crane_chunk@),
                first_frame_failure(crane_chunk@, i as int) is None,
                forall|k: int| 0 <= k < i ==> (#[trigger] crane_sprite@[k]).wf(),
                forall|k: int|
                    0 <= k < i ==> decodes_to(
                        frame_bytes(crane_chunk@, k as nat),
                        #[trigger] crane_sprite@[k],
                    ),
            decreases CRANES - i,
        {
            match sprite_get_frame(crane_chunk.as_slice(), i) {
                Ok(frame) => {
                    crane_sprite.push(frame);
                },
                Err(e) => {
                    proof {
                        assert(first_frame_failure(crane_chunk@, i as int + 1) == Some(e));
                        lemma_frame_failure_stays(crane_chunk@, i as int + 1, CRANES as int);
                    }
                    return Err(e);
                },
            }
            i += 1;
        }
        let whole: SpriteFrame = sprite_get_frame(title_chunk.as_slice(), 0)?;
        if down.len() < SCREEN_PIXELS || up.len() < SCREEN_PIXELS {
            return Err(Error::Data);
        }
        let title_height: u32 = whole.height;
        let ghost shape: SpriteFrame = whole;
        let title = SpriteFrame { width: whole.width, height: 0, data: whole.data };
        let cranes: Vec<Crane> = random_cranes();
        assert(0 == title.width * 0) by (nonlinear_arith);
        let s = Splash {
            up,
            down,
            crane_sprite,
            title,
            title_height,
            cranes,
            h_offset: 0,
            frame: 0,
        };
        assert(decodes_to(frame_bytes(title_chunk@, 0), shape) && shape@ == s.title@ && shape.width
            == s.title.width && shape.height == s.title_height);
        Ok(s)
    }

    /// The splash screen one frame later. The landscape scrolls in by one
    /// row until it fills the screen. On every fifth frame the cranes move
    /// and three more rows of the title show.
    pub fn step(&mut self)
        requires
            old(self).wf(),
            old(self).steppable(),
        ensures
            final(self).wf(),
            final(self).frame == old(self).frame + 1,
            final(self).h_offset == (if old(self).h_offset < SCREEN_HEIGHT {
                old(self).h_offset + 1
            } else {
                old(self).h_offset as int
            }),
            final(self).up == old(self).up,
            final(self).down == old(self).down,
            final(self).crane_sprite == old(self).crane_sprite,
            final(self).title_height == old(self).title_height,
            final(self).title.width == old(self).title.width,
            final(self).title.data == old(self).title.data,
            final(self).cranes@.len() == old(self).cranes@.len(),
            (old(self).frame + 1) % (CRANE_PERIOD as int) == 0 ==> final(self).title.height
                == spec_unveil(old(self).title.height, old(self).title_height) && forall|i: int|
                0 <= i < old(self).cranes@.len() ==> #[trigger] final(self).cranes@[i] == old(
                    self,
                ).cranes@[i].spec_moved(),
            (old(self).frame + 1) % (CRANE_PERIOD as int) != 0 ==> final(self).title.height == old(
                self,
            ).title.height && final(self).cranes@ == old(self).cranes@,
    {
        self.frame = self.frame + 1;
        if self.h_offset < SCREEN_HEIGHT {
            self.h_offset = self.h_offset + 1;
        }
        if self.frame % CRANE_PERIOD == 0 {
            move_cranes(&mut self.cranes);
            let shown: u32 = unveil(self.title.height, self.title_height);
            proof {
                let w: int = self.title.width as int;
                assert(w * shown <= w * self.title_height) by (nonlinear_arith)
                    requires
                        0 <= w,
                        0 <= shown <= self.title_height,
                ;
            }
            self.title.height = shown;
        }
    }

    /// The screen that the splash screen shows: the landscape, the cranes
    /// over it, and the title on top.
    pub open spec fn spec_draw(&self, dest: Seq<u8>) -> Seq<u8> {
        blit(
            self.title,
            spec_draw_cranes(
                self.cranes@,
                self.crane_sprite@,
                0,
                spec_landscape(dest, self.up@, self.down@, self.h_offset as int),
            ),
            SCREEN_WIDTH as nat,
            SCREEN_HEIGHT as nat,
            TITLE_X as int,
            TITLE_Y as int,
        )
    }

    /// Draws the splash screen (see [`Splash::spec_draw`]).
    pub fn draw(&self, pixels: &mut [u8])
        requires
            self.wf(),
            SCREEN_PIXELS <= old(pixels)@.len(),
        ensures
            final(pixels)@ == self.spec_draw(old(pixels)@),
            final(pixels)@.len() == old(pixels)@.len(),
    {
        draw_landscape(pixels, self.up.as_slice(), self.down.as_slice(), self.h_offset);
        let ghost landscape: Seq<u8> = pixels@;
        let n: usize = self.cranes.len();
        let mut i: usize = 0;
        while i < n
            invariant
                i <= n,
                n == self.cranes@.len(),
                self.wf(),
                SCREEN_PIXELS <= pixels@.len(),
                pixels@.len() == old(pixels)@.len(),
                spec_draw_cranes(self.cranes@, self.crane_sprite@, i as int, pixels@)
                    == spec_draw_cranes(self.cranes@, self.crane_sprite@, 0, landscape),
            decreases n - i,
        {
            let crane: Crane = self.cranes[i];
            assert(self.cranes@[i as int].flies());
            let frame: &SpriteFrame = &self.crane_sprite[crane.sprite_id as usize];
            draw_sprite_frame(frame, pixels, SCREEN_WIDTH, SCREEN_HEIGHT, crane.x, crane.y);
            i += 1;
        }
        proof {
            assert(self.title.width * self.title.height <= self.title.width * self.title_height)
                by (nonlinear_arith)
                requires
                    self.title.height <= self.title_height,
            ;
        }
        draw_sprite_frame(&self.title, pixels, SCREEN_WIDTH, SCREEN_HEIGHT, TITLE_X, TITLE_Y);
    }
}

/// The first of the first `upto` frames of a sprite chunk that cannot be
/// decoded, with the reason.
pub open spec fn first_frame_failure(sprite_data: Seq<u8>, upto: int) -> Option<Error>
    decreases upto,
{
    if upto <= 0 {
        None
    } else if first_frame_failure(sprite_data, upto - 1) is Some {
        first_frame_failure(sprite_data, upto - 1)
    } else {
        frame_failure(sprite_data, (upto - 1) as nat)
    }
}

/// Once a frame cannot be decoded, the first failure stays what it is.
pub proof fn lemma_frame_failure_stays(sprite_data: Seq<u8>, from: int, upto: int)
    requires
        0 <= from <= upto,
        first_frame_failure(sprite_data, from) is Some,
    ensures
        first_frame_failure(sprite_data, upto) == first_frame_failure(sprite_data, from),
    decreases upto - from,
{
    if from < upto {
        lemma_frame_failure_stays(sprite_data, from, upto - 1);
    }
}

/// The two entries of the opening menu: a new game and a saved game.
pub fn main_menu_items() -> (items: Vec<MenuItem>)
    ensures
        items@ == seq![
            MenuItem { value: 0, num_word: MAINMENU_LABEL_NEWGAME, enabled: true, x: 125, y: 95 },
            MenuItem { value: 1, num_word: MAINMENU_LABEL_LOADGAME, enabled: true, x: 125, y: 112 },
        ],
{
    let mut items: Vec<MenuItem> = Vec::new();
    items.push(
        MenuItem { value: 0, num_word: MAINMENU_LABEL_NEWGAME, enabled: true, x: 125, y: 95 },
    );
    items.push(
        MenuItem { value: 1, num_word: MAINMENU_LABEL_LOADGAME, enabled: true, x: 125, y: 112 },
    );
    assert(items@ =~= seq![
        MenuItem { value: 0, num_word: MAINMENU_LABEL_NEWGAME, enabled: true, x: 125, y: 95 },
        MenuItem { value: 1, num_word: MAINMENU_LABEL_LOADGAME, enabled: true, x: 125, y: 112 },
    ]);
    items
}

/// Slots for saved games.
pub const SAVE_SLOTS: u16 = 5;

/// Entry `i` of the menu of saved games.
pub open spec fn spec_slot_item(i: int) -> MenuItem {
    MenuItem {
        value: (i + 1) as u16,
        num_word: (LOADMENU_LABEL_SLOT_FIRST + i) as u32,
        enabled: true,
        x: 210,
        y: (17 + 38 * i) as u16,
    }
}

/// Where the box of entry `i` of the menu of saved games is drawn.
pub open spec fn spec_slot_box(i: int) -> Pos {
    Pos { x: 195, y: (7 + 38 * i) as isize }
}

/// The entries of the menu of saved games.
pub fn load_menu_items() -> (items: Vec<MenuItem>)
    ensures
        items@.len() == SAVE_SLOTS,
        forall|i: int| 0 <= i < SAVE_SLOTS ==> #[trigger] items@[i] == spec_slot_item(i),
{
    let mut items: Vec<MenuItem> = Vec::new();
    let mut i: u16 = 0;
    while i < SAVE_SLOTS
        invariant
            i <= SAVE_SLOTS,
            items@.len() == i,
            forall|k: int| 0 <= k < i ==> #[trigger] items@[k] == spec_slot_item(k),
        decreases SAVE_SLOTS - i,
    {
        items.push(
            MenuItem {
                value: i + 1,
                num_word: LOADMENU_LABEL_SLOT_FIRST + (i as u32),
                enabled: true,
                x: 210,
                y: 17 + 38 * i,
            },
        );
        i += 1;
    }
    items
}

/// Where the box of entry `i` of the menu of saved games is drawn.
pub fn slot_box(i: u16) -> (pos: Pos)
    requires
        i < SAVE_SLOTS,
    ensures
        pos == spec_slot_box(i as int),
{
    Pos { x: 195, y: 7 + 38 * (i as isize) }
}

} // verus!
