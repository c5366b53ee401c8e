//! The starfield behind the ship.
//!
//! Space is cut into tiles one unit wide and high. Each tile holds fifty
//! stars, scattered by a generator that is seeded with the tile's own
//! coordinates, so that a tile shows the same stars whenever it comes into
//! view. Each frame, the stars of the tiles around the camera are laid out
//! afresh.

use rand::{Rng, SeedableRng, XorShiftRng};
use vstd::prelude::*;
use crate::render::{
    clip_x, clip_y, job_views, lemma_reset_restores_identity, uniforms_after, Job, Rect, RenderJob,
    Uniforms,
};
use crate::units::fixed::{ceil_units, div_ceil, div_floor, div_trunc, floor_units, sat, saturate, ONE};
use crate::units::linear::V2;

verus! {

/// `rand::XorShiftRng`, the generator that scatters the stars. It is taken
/// as it comes: nothing is said of what is inside it.
#[verifier::external_type_specification]
#[verifier::external_body]
pub struct ExXorShiftRng(rand::XorShiftRng);

/// Stars in one tile.
pub const STARS_PER_TILE: usize = 50;

/// Columns of the grid on which a tile's stars sit.
pub const TILE_COLUMNS: i32 = 1280;

/// Rows of the grid on which a tile's stars sit.
pub const TILE_ROWS: i32 = 720;

/// Depth at which the stars are drawn.
pub const STAR_DEPTH: i64 = -600_000_000;

/// Width of a star: one column of the grid.
pub const STAR_WIDTH: i64 = 781_250;

/// Height of a star: one row of the grid.
pub const STAR_HEIGHT: i64 = 1_388_888;

/// Half a unit: how far the camera's centre is from its tile's corner.
pub const HALF: i64 = 500_000_000;

/// The four words that a generator holds, from which all that it will ever
/// hand out follows.
pub uninterp spec fn generator_state(rng: XorShiftRng) -> Seq<u32>;

/// What `Rng::gen_range` does on 32-bit integers to a generator that holds
/// the four words `state`: the number that it hands out, and the four words
/// that the generator holds afterwards.
pub uninterp spec fn range_draw(state: Seq<u32>, low: int, high: int) -> (int, Seq<u32>);

/// `XorShiftRng::from_seed`: a generator that holds the four words of the
/// seed. The crate panics on a seed of four zeros, which is left out here.
#[verifier::external_body]
fn seeded(seed: [u32; 4]) -> (rng: XorShiftRng)
    requires
        seed[0] != 0 || seed[1] != 0 || seed[2] != 0 || seed[3] != 0,
    ensures
        generator_state(rng) == seed@,
{
    XorShiftRng::from_seed(seed)
}

/// `XorShiftRng::reseed`: puts the four words of the seed in place of those
/// that the generator holds. The crate panics on a seed of four zeros, which
/// is left out here.
#[verifier::external_body]
fn reseed(rng: &mut XorShiftRng, seed: [u32; 4])
    requires
        seed[0] != 0 || seed[1] != 0 || seed[2] != 0 || seed[3] != 0,
    ensures
        generator_state(*final(rng)) == seed@,
{
    rng.reseed(seed)
}

/// `Rng::gen_range` on 32-bit integers: a number from `low` up to, not
/// including, `high`. The crate panics unless `low < high`. Which number
/// comes, and what the generator holds afterwards, follows from what the
/// generator held before and from the two bounds, and from nothing else;
/// how, is the crate's business and goes by the name `range_draw`. The crate
/// draws until a number suits it; as no generator can be made or reseeded
/// with four zeros, its stream never runs dry of such numbers.
#[verifier::external_body]
fn gen_range(rng: &mut XorShiftRng, low: i32, high: i32) -> (n: i32)
    requires
        low < high,
    ensures
        low <= n < high,
        n == range_draw(generator_state(*old(rng)), low as int, high as int).0,
        generator_state(*final(rng)) == range_draw(
            generator_state(*old(rng)),
            low as int,
            high as int,
        ).1,
{
    rng.gen_range(low, high)
}

/// The first tile, along one axis, that a camera centred on `c` can see:
/// the tile that holds the point one and a half units below `c`.
pub open spec fn first_tile(c: i64) -> int {
    div_floor(c - HALF - ONE, ONE as int)
}

/// The tile, along one axis, after the last that a camera centred on `c`
/// can see.
pub open spec fn end_tile(c: i64) -> int {
    div_ceil(c - HALF + ONE, ONE as int)
}

/// Number of tiles, along one axis, that a camera centred on `c` can see.
pub open spec fn tiles_across(c: i64) -> int {
    end_tile(c) - first_tile(c)
}

/// The star of tile `(tx, ty)` that sits on column `px` and row `py` of the
/// tile's grid.
pub open spec fn star_at(tx: int, ty: int, px: int, py: int) -> Rect {
    Rect {
        x: sat(tx * ONE + div_trunc(px * ONE, TILE_COLUMNS as int)) as i64,
        y: sat(ty * ONE + div_trunc(py * ONE, TILE_ROWS as int)) as i64,
        z: STAR_DEPTH,
        w: STAR_WIDTH,
        h: STAR_HEIGHT,
    }
}

/// Whether `star` sits somewhere on the grid of tile `(tx, ty)`.
pub open spec fn is_star_of(star: Rect, tx: int, ty: int) -> bool {
    exists|px: int, py: int|
        0 <= px < TILE_COLUMNS && 0 <= py < TILE_ROWS && star == #[trigger] star_at(tx, ty, px, py)
}

/// The tile to which the star at place `i` of the starfield belongs, when
/// the camera is centred on `pos`: tiles follow one another row by row from
/// the lowest, each row from the left, fifty stars to a tile.
pub open spec fn tile_of(pos: V2, i: int) -> (int, int) {
    let tile = i / (STARS_PER_TILE as int);
    (
        first_tile(pos.x) + tile % tiles_across(pos.x),
        first_tile(pos.y) + tile / tiles_across(pos.x),
    )
}

/// The seed for the stars of tile `(tx, ty)`: the low halves of the two
/// coordinates, then two fixed words.
pub open spec fn tile_seed_of(tx: i64, ty: i64) -> Seq<u32> {
    seq![tx as u32, ty as u32, 0xDEADBEEFu32, 0xCAFEBABEu32]
}

/// The first `n` stars that a generator holding `state` scatters over tile
/// `(tx, ty)`, and what the generator holds after them. For each star the
/// generator is asked for a column, then for a row.
pub open spec fn drawn_stars(state: Seq<u32>, tx: int, ty: int, n: nat) -> (Seq<Rect>, Seq<u32>)
    decreases n,
{
    if n == 0 {
        (Seq::empty(), state)
    } else {
        let (stars, s0) = drawn_stars(state, tx, ty, (n - 1) as nat);
        let (px, s1) = range_draw(s0, 0, TILE_COLUMNS as int);
        let (py, s2) = range_draw(s1, 0, TILE_ROWS as int);
        (stars.push(star_at(tx, ty, px, py)), s2)
    }
}

/// The stars of tile `(tx, ty)`: the fifty that a generator scatters which
/// was seeded with the tile's seed. They are the same whenever the tile
/// comes into view.
pub open spec fn tile_stars(tx: i64, ty: i64) -> Seq<Rect> {
    drawn_stars(tile_seed_of(tx, ty), tx as int, ty as int, STARS_PER_TILE as nat).0
}

/// The tile at place `t` among those that a camera centred on `pos` can
/// see: tiles follow one another row by row from the lowest, each row from
/// the left.
pub open spec fn tile_at(pos: V2, t: int) -> (int, int) {
    (first_tile(pos.x) + t % tiles_across(pos.x), first_tile(pos.y) + t / tiles_across(pos.x))
}

/// The stars of the first `tiles` tiles that a camera centred on `pos` can
/// see, tile after tile.
pub open spec fn field_stars(pos: V2, tiles: nat) -> Seq<Rect>
    decreases tiles,
{
    if tiles == 0 {
        Seq::empty()
    } else {
        let (tx, ty) = tile_at(pos, tiles - 1);
        field_stars(pos, (tiles - 1) as nat) + tile_stars(tx as i64, ty as i64)
    }
}

/// The stars that a camera centred on `pos` can see.
pub open spec fn star_field(pos: V2) -> Seq<Rect> {
    field_stars(pos, (tiles_across(pos.x) * tiles_across(pos.y)) as nat)
}

/// A camera sees two tiles along an axis when it is centred exactly between
/// tile borders, and three otherwise.
pub proof fn lemma_tiles_across(c: i64)
    ensures
        2 <= tiles_across(c) <= 3,
{
}

/// The star of tile `(tx, ty)` that sits on column `px` and row `py` of the
/// tile's grid.
pub fn star_rect(tx: i64, ty: i64, px: i32, py: i32) -> (star: Rect)
    ensures
        star == star_at(tx as int, ty as int, px as int, py as int),
{
    let rel_x = (px as i128) * (ONE as i128) / (TILE_COLUMNS as i128);
    let rel_y = (py as i128) * (ONE as i128) / (TILE_ROWS as i128);
    Rect {
        x: saturate((tx as i128) * (ONE as i128) + rel_x),
        y: saturate((ty as i128) * (ONE as i128) + rel_y),
        z: STAR_DEPTH,
        w: STAR_WIDTH,
        h: STAR_HEIGHT,
    }
}

/// The seed that the generator starts out with, before any tile is laid out.
pub fn star_seed() -> (seed: [u32; 4])
    ensures
        seed[0] == 157,
        seed[1] == 27,
        seed[2] == 24,
        seed[3] == 133,
{
    [157, 27, 24, 133]
}

/// The seed for the stars of tile `(tx, ty)`: the low halves of the two
/// coordinates, then two fixed words.
pub fn tile_seed(tx: i64, ty: i64) -> (seed: [u32; 4])
    ensures
        seed[0] == tx as u32,
        seed[1] == ty as u32,
        seed[2] == 0xDEADBEEFu32,
        seed[3] == 0xCAFEBABEu32,
        seed@ == tile_seed_of(tx, ty),
{
    let seed: [u32; 4] = [
        #[verifier::truncate] (tx as u32),
        #[verifier::truncate] (ty as u32),
        0xDEADBEEF,
        0xCAFEBABE,
    ];
    assert(seed@ =~= tile_seed_of(tx, ty));
    seed
}

/// The starfield and the camera that looks at it.
pub struct World {
    player_pos: V2,
    tx_star_bg: usize,
    tx_star_fg: usize,
    entropy: XorShiftRng,
    starfield: Vec<Rect>,
}

impl World {
    /// The point on which the camera is centred.
    pub closed spec fn player_pos(&self) -> V2 {
        self.player_pos
    }

    /// The texture of the sky between the stars.
    pub closed spec fn tx_star_bg(&self) -> usize {
        self.tx_star_bg
    }

    /// The texture of a star.
    pub closed spec fn tx_star_fg(&self) -> usize {
        self.tx_star_fg
    }

    /// The stars laid out by the last update.
    pub closed spec fn starfield(&self) -> Seq<Rect> {
        self.starfield@
    }

    /// The jobs that draw the world: nothing while no star is laid out;
    /// otherwise the stars in one batch, moved so that the camera's own
    /// place in clip space comes to lie on the centre of the screen, and a
    /// reset behind them.
    pub open spec fn jobs(&self) -> Seq<Job> {
        if self.starfield().len() == 0 {
            Seq::empty()
        } else {
            seq![
                Job::UniformTranslate(
                    V2 {
                        x: sat(-clip_x(self.player_pos().x as int)) as i64,
                        y: sat(-clip_y(self.player_pos().y as int)) as i64,
                    },
                ),
                Job::DrawMany(self.tx_star_fg(), self.starfield()),
                Job::ResetUniforms,
            ]
        }
    }

    /// A world seen from `camera_center`, with no star laid out yet.
    /// `star_fg_id` and `star_bg_id` are the handles of the two textures,
    /// one pixel each, of the stars and of the sky.
    pub fn new(star_fg_id: usize, star_bg_id: usize, camera_center: V2) -> (w: World)
        ensures
            w.player_pos() == camera_center,
            w.tx_star_fg() == star_fg_id,
            w.tx_star_bg() == star_bg_id,
            w.starfield() == Seq::<Rect>::empty(),
    {
        World {
            player_pos: camera_center,
            tx_star_bg: star_bg_id,
            tx_star_fg: star_fg_id,
            entropy: seeded(star_seed()),
            starfield: Vec::with_capacity(3 * 3 * 50),
        }
    }

    /// The stars laid out by the last update.
    pub fn stars(&self) -> (s: &Vec<Rect>)
        ensures
            s@ == self.starfield(),
    {
        &self.starfield
    }

    /// The point on which the camera is centred.
    pub fn camera(&self) -> (p: V2)
        ensures
            p == self.player_pos(),
    {
        self.player_pos
    }

    /// Centres the camera on `pos` and lays out the stars of every tile it
    /// can see from there: fifty to a tile, tile after tile, row by row from
    /// the lowest, each row from the left. Where in its tile a star comes
    /// to sit is up to the generator, which is seeded with the tile's own
    /// seed before it scatters the tile's stars: so the stars laid out
    /// depend on `pos` and on nothing else, and each sits on the grid of its
    /// tile.
    pub fn update(&mut self, pos: V2)
        ensures
            final(self).player_pos() == pos,
            final(self).starfield() == star_field(pos),
            final(self).tx_star_fg() == old(self).tx_star_fg(),
            final(self).tx_star_bg() == old(self).tx_star_bg(),
            final(self).starfield().len() == STARS_PER_TILE * (tiles_across(pos.x) * tiles_across(
                pos.y,
            )),
            forall|i: int|
                0 <= i < final(self).starfield().len() ==> is_star_of(
                    #[trigger] final(self).starfield()[i],
                    tile_of(pos, i).0,
                    tile_of(pos, i).1,
                ),
    {
        self.player_pos = pos;
        self.starfield.clear();

        let left = floor_units(pos.x as i128 - HALF as i128 - ONE as i128) as i64;
        let bot = floor_units(pos.y as i128 - HALF as i128 - ONE as i128) as i64;
        let right = ceil_units(pos.x as i128 - HALF as i128 + ONE as i128) as i64;
        let top = ceil_units(pos.y as i128 - HALF as i128 + ONE as i128) as i64;
        let ghost across = tiles_across(pos.x);
        assert(across == 2 || across == 3);

        let mut y = bot;
        while y < top
            invariant
                bot <= y <= top,
                left == first_tile(pos.x),
                right == end_tile(pos.x),
                bot == first_tile(pos.y),
                top == end_tile(pos.y),
                across == tiles_across(pos.x),
                across == 2 || across == 3,
                self.player_pos == pos,
                self.tx_star_fg == old(self).tx_star_fg,
                self.tx_star_bg == old(self).tx_star_bg,
                self.starfield@.len() == 50 * (across * (y - bot)),
                self.starfield@ == field_stars(pos, (across * (y - bot)) as nat),
                forall|i: int|
                    0 <= i < self.starfield@.len() ==> is_star_of(
                        #[trigger] self.starfield@[i],
                        tile_of(pos, i).0,
                        tile_of(pos, i).1,
                    ),
            decreases top - y,
        {
            let mut x = left;
            while x < right
                invariant
                    bot <= y < top,
                    left <= x <= right,
                    left == first_tile(pos.x),
                    right == end_tile(pos.x),
                    bot == first_tile(pos.y),
                    across == tiles_across(pos.x),
                    across == 2 || across == 3,
                    self.player_pos == pos,
                    self.tx_star_fg == old(self).tx_star_fg,
                    self.tx_star_bg == old(self).tx_star_bg,
                    self.starfield@.len() == 50 * (across * (y - bot) + (x - left)),
                    self.starfield@ == field_stars(
                        pos,
                        (across * (y - bot) + (x - left)) as nat,
                    ),
                    forall|i: int|
                        0 <= i < self.starfield@.len() ==> is_star_of(
                            #[trigger] self.starfield@[i],
                            tile_of(pos, i).0,
                            tile_of(pos, i).1,
                        ),
                decreases right - x,
            {
                let ghost tile = across * (y - bot) + (x - left);
                let ghost field = self.starfield@;
                lay_tile(&mut self.entropy, &mut self.starfield, x, y);
                proof {
                    if across == 2 {
                        assert(tile % 2 == x - left);
                        assert(tile / 2 == y - bot);
                    } else {
                        assert(tile % 3 == x - left);
                        assert(tile / 3 == y - bot);
                    }
                    assert(tile_at(pos, tile) == (x as int, y as int));
                    assert((tile + 1 - 1) as nat == tile as nat);
                    assert(field_stars(pos, (tile + 1) as nat) == field + tile_stars(x, y));
                    assert forall|i: int| 0 <= i < self.starfield@.len() implies is_star_of(
                        #[trigger] self.starfield@[i],
                        tile_of(pos, i).0,
                        tile_of(pos, i).1,
                    ) by {
                        if i < field.len() {
                            assert(self.starfield@[i] == field[i]);
                        } else {
                            assert(i / 50 == tile);
                            assert(tile_of(pos, i) == (x as int, y as int));
                            assert(self.starfield@[i] == tile_stars(x, y)[i - field.len()]);
                        }
                    }
                }
                x = x + 1;
            }
            y = y + 1;
        }
    }

    /// Appends the jobs that draw the world to the frame's list.
    pub fn draw(&self, jobs: &mut Vec<RenderJob>)
        ensures
            job_views(final(jobs)@) == job_views(old(jobs)@) + self.jobs(),
    {
        if self.starfield.len() == 0 {
            assert(job_views(jobs@) + self.jobs() =~= job_views(jobs@));
            return ;
        }
        let x1 = saturate(2 * (self.player_pos.x as i128) - ONE as i128);
        let y1 = saturate(ONE as i128 - 2 * (self.player_pos.y as i128));
        let shift = V2 { x: saturate(-(x1 as i128)), y: saturate(-(y1 as i128)) };
        let stars = copy_rects(&self.starfield);
        let ghost before = job_views(jobs@);
        jobs.push(RenderJob::UniformTranslate(shift));
        jobs.push(RenderJob::DrawMany(self.tx_star_fg, stars));
        jobs.push(RenderJob::ResetUniforms);
        assert(job_views(jobs@) =~= before + self.jobs());
    }
}

/// Lays out the stars of tile `(tx, ty)` behind those laid out already:
/// the generator is seeded with the tile's seed and then asked fifty times
/// for a column and a row.
fn lay_tile(entropy: &mut XorShiftRng, starfield: &mut Vec<Rect>, tx: i64, ty: i64)
    ensures
        final(starfield)@ == old(starfield)@ + tile_stars(tx, ty),
        tile_stars(tx, ty).len() == STARS_PER_TILE,
        forall|i: int|
            0 <= i < STARS_PER_TILE ==> is_star_of(
                #[trigger] tile_stars(tx, ty)[i],
                tx as int,
                ty as int,
            ),
{
    reseed(entropy, tile_seed(tx, ty));
    let ghost seed = tile_seed_of(tx, ty);
    let ghost field = starfield@;
    proof {
        assert(field + drawn_stars(seed, tx as int, ty as int, 0).0 =~= field);
    }
    let mut star: usize = 0;
    while star < STARS_PER_TILE
        invariant
            star <= 50,
            seed == tile_seed_of(tx, ty),
            starfield@ == field + drawn_stars(seed, tx as int, ty as int, star as nat).0,
            generator_state(*entropy) == drawn_stars(seed, tx as int, ty as int, star as nat).1,
            drawn_stars(seed, tx as int, ty as int, star as nat).0.len() == star,
            forall|i: int|
                0 <= i < star ==> is_star_of(
                    #[trigger] drawn_stars(seed, tx as int, ty as int, star as nat).0[i],
                    tx as int,
                    ty as int,
                ),
        decreases 50 - star,
    {
        let ghost drawn = drawn_stars(seed, tx as int, ty as int, star as nat);
        let px = gen_range(entropy, 0, TILE_COLUMNS);
        let py = gen_range(entropy, 0, TILE_ROWS);
        let rect = star_rect(tx, ty, px, py);
        starfield.push(rect);
        proof {
            let more = drawn_stars(seed, tx as int, ty as int, (star + 1) as nat);
            assert((star + 1 - 1) as nat == star as nat);
            assert(more.0 == drawn.0.push(rect));
            assert(starfield@ =~= field + more.0);
            assert(rect == star_at(tx as int, ty as int, px as int, py as int));
            assert(is_star_of(rect, tx as int, ty as int));
            assert forall|i: int| 0 <= i < star + 1 implies is_star_of(
                #[trigger] more.0[i],
                tx as int,
                ty as int,
            ) by {
                if i < star {
                    assert(more.0[i] == drawn.0[i]);
                }
            }
        }
        star = star + 1;
    }
}

/// A copy of a list of rectangles.
pub fn copy_rects(rects: &Vec<Rect>) -> (copy: Vec<Rect>)
    ensures
        copy@ == rects@,
{
    let mut copy: Vec<Rect> = Vec::with_capacity(rects.len());
    let mut i: usize = 0;
    while i < rects.len()
        invariant
            i <= rects.len(),
            copy@ == rects@.take(i as int),
        decreases rects.len() - i,
    {
        copy.push(rects[i]);
        assert(copy@ =~= rects@.take(i as int + 1));
        i = i + 1;
    }
    assert(rects@.take(i as int) =~= rects@);
    copy
}

/// The world cleans up after itself: once it has drawn its stars, the
/// identity is in force, whatever transform was in force before; and while
/// it has no stars to draw, it leaves the transform alone.
pub proof fn lemma_world_jobs_reset(before: Seq<Job>, w: World)
    ensures
        uniforms_after(before + w.jobs()) == if w.starfield().len() == 0 {
            uniforms_after(before)
        } else {
            Uniforms::identity_spec()
        },
{
    if w.starfield().len() == 0 {
        assert(before + w.jobs() =~= before);
    } else {
        let head = before + seq![w.jobs()[0], w.jobs()[1]];
        assert(before + w.jobs() =~= head.push(Job::ResetUniforms) + Seq::<Job>::empty());
        lemma_reset_restores_identity(head, Seq::empty());
    }
}

} // verus!