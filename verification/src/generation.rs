//! World generation: a chunk's initial content as a pure function of its
//! coordinate, the world seed, and the climate/terrain noise sampled for
//! it. Biome classification, neighbor-weighted height interpolation, column
//! fill and stochastic decoration all run on exact integer arithmetic; the
//! decoration draws come from a deterministic per-column mixer of the seed,
//! so the same inputs always generate the same chunk.

use vstd::prelude::*;
use crate::blocks::{BlockData, BlockDirection, BlockId};
use crate::coords::IVec3;
use crate::world_map::ServerChunk;

verus! {

/// The world's generation seed.
#[derive(Clone, Copy, Debug, PartialEq, Eq, Structural)]
pub struct WorldSeed(pub u32);

/// The fixed set of biomes.
#[derive(Clone, Copy, Debug, PartialEq, Eq, Structural)]
pub enum BiomeType {
    Plains,
    Forest,
    MediumMountain,
    HighMountainGrass,
    Desert,
    IcePlain,
    FlowerPlains,
}

/// Static parameters of one biome.
#[derive(Clone, Copy, Debug, PartialEq, Eq, Structural)]
pub struct Biome {
    pub biome_type: BiomeType,
    pub base_height: i32,
    pub height_variation: i32,
    pub surface_block: BlockId,
    pub sub_surface_block: BlockId,
}

/// Biome selected by a (temperature, humidity) pair, both in thousandths.
pub open spec fn spec_determine_biome(temperature: int, humidity: int) -> BiomeType {
    if temperature > 600 {
        if humidity > 500 {
            BiomeType::Forest
        } else {
            BiomeType::Desert
        }
    } else if temperature > 300 {
        if humidity > 700 {
            BiomeType::FlowerPlains
        } else if humidity > 500 {
            BiomeType::Plains
        } else {
            BiomeType::MediumMountain
        }
    } else {
        if humidity > 500 {
            BiomeType::IcePlain
        } else {
            BiomeType::HighMountainGrass
        }
    }
}

/// Classify a column's climate into a biome. A negative temperature is
/// outside the generator's climate model and is rejected by contract.
pub fn determine_biome(temperature: i64, humidity: i64) -> (b: BiomeType)
    requires
        temperature >= 0,
    ensures
        b == spec_determine_biome(temperature as int, humidity as int),
{
    if temperature > 600 {
        if humidity > 500 {
            BiomeType::Forest
        } else {
            BiomeType::Desert
        }
    } else if temperature > 300 {
        if humidity > 700 {
            BiomeType::FlowerPlains
        } else if humidity > 500 {
            BiomeType::Plains
        } else {
            BiomeType::MediumMountain
        }
    } else {
        if humidity > 500 {
            BiomeType::IcePlain
        } else {
            BiomeType::HighMountainGrass
        }
    }
}

/// The static registry entry of each biome.
pub open spec fn spec_biome_data(biome_type: BiomeType) -> Biome {
    match biome_type {
        BiomeType::Plains => Biome {
            biome_type: BiomeType::Plains,
            base_height: 64,
            height_variation: 1,
            surface_block: BlockId::Grass,
            sub_surface_block: BlockId::Dirt,
        },
        BiomeType::Forest => Biome {
            biome_type: BiomeType::Forest,
            base_height: 64,
            height_variation: 2,
            surface_block: BlockId::Grass,
            sub_surface_block: BlockId::Dirt,
        },
        BiomeType::MediumMountain => Biome {
            biome_type: BiomeType::MediumMountain,
            base_height: 70,
            height_variation: 4,
            surface_block: BlockId::Grass,
            sub_surface_block: BlockId::Dirt,
        },
        BiomeType::HighMountainGrass => Biome {
            biome_type: BiomeType::HighMountainGrass,
            base_height: 75,
            height_variation: 7,
            surface_block: BlockId::Grass,
            sub_surface_block: BlockId::Dirt,
        },
        BiomeType::Desert => Biome {
            biome_type: BiomeType::Desert,
            base_height: 64,
            height_variation: 1,
            surface_block: BlockId::Sand,
            sub_surface_block: BlockId::Sand,
        },
        BiomeType::IcePlain => Biome {
            biome_type: BiomeType::IcePlain,
            base_height: 64,
            height_variation: 1,
            surface_block: BlockId::Snow,
            sub_surface_block: BlockId::Ice,
        },
        BiomeType::FlowerPlains => Biome {
            biome_type: BiomeType::FlowerPlains,
            base_height: 64,
            height_variation: 1,
            surface_block: BlockId::Grass,
            sub_surface_block: BlockId::Dirt,
        },
    }
}

/// The immutable per-biome registry: base height, height variation, and the
/// surface and subsurface blocks.
pub fn get_biome_data(biome_type: BiomeType) -> (b: Biome)
    ensures
        b == spec_biome_data(biome_type),
{
    match biome_type {
        BiomeType::Plains => Biome {
            biome_type: BiomeType::Plains,
            base_height: 64,
            height_variation: 1,
            surface_block: BlockId::Grass,
            sub_surface_block: BlockId::Dirt,
        },
        BiomeType::Forest => Biome {
            biome_type: BiomeType::Forest,
            base_height: 64,
            height_variation: 2,
            surface_block: BlockId::Grass,
            sub_surface_block: BlockId::Dirt,
        },
        BiomeType::MediumMountain => Biome {
            biome_type: BiomeType::MediumMountain,
            base_height: 70,
            height_variation: 4,
            surface_block: BlockId::Grass,
            sub_surface_block: BlockId::Dirt,
        },
        BiomeType::HighMountainGrass => Biome {
            biome_type: BiomeType::HighMountainGrass,
            base_height: 75,
            height_variation: 7,
            surface_block: BlockId::Grass,
            sub_surface_block: BlockId::Dirt,
        },
        BiomeType::Desert => Biome {
            biome_type: BiomeType::Desert,
            base_height: 64,
            height_variation: 1,
            surface_block: BlockId::Sand,
            sub_surface_block: BlockId::Sand,
        },
        BiomeType::IcePlain => Biome {
            biome_type: BiomeType::IcePlain,
            base_height: 64,
            height_variation: 1,
            surface_block: BlockId::Snow,
            sub_surface_block: BlockId::Ice,
        },
        BiomeType::FlowerPlains => Biome {
            biome_type: BiomeType::FlowerPlains,
            base_height: 64,
            height_variation: 1,
            surface_block: BlockId::Grass,
            sub_surface_block: BlockId::Dirt,
        },
    }
}

/// A biome whose fields the height interpolation can mix safely.
pub open spec fn spec_biome_fields_ok(b: Biome) -> bool {
    0 <= b.base_height <= 1000 && 0 <= b.height_variation <= 100
}

/// Neighbor-weighted height: the weighted average of base heights, plus the
/// weighted average of height variations scaled by the column's terrain
/// noise (in thousandths), rounded to the nearest block.
pub open spec fn spec_interpolated_height(center: Biome, ring: Seq<Biome>, noise: int) -> int {
    let wb = 1000 * center.base_height + 150 * ring[0].base_height + 200 * ring[1].base_height
        + 150 * ring[2].base_height + 200 * ring[3].base_height + 200 * ring[4].base_height + 150
        * ring[5].base_height + 200 * ring[6].base_height + 150 * ring[7].base_height;
    let wv = 1000 * center.height_variation + 150 * ring[0].height_variation + 200
        * ring[1].height_variation + 150 * ring[2].height_variation + 200
        * ring[3].height_variation + 200 * ring[4].height_variation + 150
        * ring[5].height_variation + 200 * ring[6].height_variation + 150
        * ring[7].height_variation;
    let num = wb * 1000 + wv * noise;
    let den: int = 2_400_000;
    (2 * num + den) / (2 * den)
}

/// Executable neighbor-weighted height interpolation over the fixed ring.
pub fn interpolated_height(center: Biome, ring: &Vec<Biome>, noise: i64) -> (h: i64)
    requires
        ring@.len() == 8,
        spec_biome_fields_ok(center),
        forall|j: int| 0 <= j < 8 ==> spec_biome_fields_ok(#[trigger] ring@[j]),
        -2000 <= noise <= 2000,
    ensures
        h as int == spec_interpolated_height(center, ring@, noise as int),
        -2000 <= h <= 3000,
{
    let wb: i64 = 1000 * center.base_height as i64 + 150 * ring[0].base_height as i64 + 200
        * ring[1].base_height as i64 + 150 * ring[2].base_height as i64 + 200
        * ring[3].base_height as i64 + 200 * ring[4].base_height as i64 + 150
        * ring[5].base_height as i64 + 200 * ring[6].base_height as i64 + 150
        * ring[7].base_height as i64;
    let wv: i64 = 1000 * center.height_variation as i64 + 150 * ring[0].height_variation as i64
        + 200 * ring[1].height_variation as i64 + 150 * ring[2].height_variation as i64 + 200
        * ring[3].height_variation as i64 + 200 * ring[4].height_variation as i64 + 150
        * ring[5].height_variation as i64 + 200 * ring[6].height_variation as i64 + 150
        * ring[7].height_variation as i64;
    proof {
        assert(-480_000_000 <= (wv as int) * (noise as int) <= 480_000_000) by (nonlinear_arith)
            requires
                0 <= wv <= 240_000,
                -2000 <= noise <= 2000,
        ;
    }
    let num: i64 = wb * 1000 + wv * noise;
    let den: i64 = 2_400_000;
    proof {
        vstd::arithmetic::div_mod::lemma_fundamental_div_mod(
            2 * (num as int) + den,
            2 * (den as int),
        );
    }
    crate::fixed::floor_div(2 * num + den, 2 * den)
}

/// The deterministic per-column mixer behind decoration placement: a pure
/// function of seed, world column and salt, yielding a value in `[0, 1000)`.
pub open spec fn spec_decor_rand(seed: u32, x: i64, z: i64, salt: u32) -> int {
    let ux = x + 2_147_483_648;
    let uz = z + 2_147_483_648;
    let h = (seed + ux * 73_856_093 + uz * 19_349_663 + salt * 83_492_791) % 4_294_967_296;
    (h * 2_654_435_761) % 4_294_967_296 % 1000
}

/// Executable decoration mixer.
pub fn decor_rand(seed: u32, x: i64, z: i64, salt: u32) -> (r: u64)
    requires
        -2_147_483_648 <= x <= 2_147_483_647,
        -2_147_483_648 <= z <= 2_147_483_647,
    ensures
        r as int == spec_decor_rand(seed, x, z, salt),
        r < 1000,
{
    let ux: u64 = (x + 2_147_483_648) as u64;
    let uz: u64 = (z + 2_147_483_648) as u64;
    proof {
        assert(ux * 73_856_093 <= 0x1_0000_0000u64 * 73_856_093 && uz * 19_349_663
            <= 0x1_0000_0000u64 * 19_349_663 && (salt as u64) * 83_492_791 <= 0x1_0000_0000u64
            * 83_492_791) by (nonlinear_arith)
            requires
                ux <= 0x1_0000_0000u64,
                uz <= 0x1_0000_0000u64,
                salt <= 0xffff_ffffu32,
        ;
    }
    let h: u64 = (seed as u64 + ux * 73_856_093 + uz * 19_349_663 + (salt as u64) * 83_492_791)
        % 4_294_967_296;
    proof {
        assert(h * 2_654_435_761 <= 4_294_967_296u64 * 2_654_435_761) by (nonlinear_arith)
            requires
                h <= 4_294_967_296u64,
        ;
    }
    (h * 2_654_435_761) % 4_294_967_296 % 1000
}

/// A decoration or column cell is stored only inside the chunk's own local
/// cube; a cell a tree or plant would reach beyond it is not kept, since a
/// chunk's local space is exactly the sixteen-cube.
pub open spec fn spec_clip_insert(
    m: Map<IVec3, BlockData>,
    key: IVec3,
    block: BlockData,
) -> Map<IVec3, BlockData> {
    if 0 <= key.x < 16 && 0 <= key.y < 16 && 0 <= key.z < 16 {
        m.insert(key, block)
    } else {
        m
    }
}

/// Executable form of [`spec_clip_insert`].
fn clip_insert(chunk: &mut ServerChunk, key: IVec3, block: BlockData)
    ensures
        final(chunk).map@ == spec_clip_insert(old(chunk).map@, key, block),
        final(chunk).ts == old(chunk).ts,
{
    if 0 <= key.x && key.x < 16 && 0 <= key.y && key.y < 16 && 0 <= key.z && key.z < 16 {
        chunk.map.insert(key, block);
    }
}

/// A vertical column of `height` identical blocks rising from `(x, y, z)`,
/// clipped to the chunk cube, `dy` of them already grown.
pub open spec fn spec_block_column(
    m: Map<IVec3, BlockData>,
    x: i32,
    y: i32,
    z: i32,
    id: BlockId,
    dy: int,
    height: int,
) -> Map<IVec3, BlockData>
    decreases height - dy,
{
    if dy < 0 || dy >= height {
        m
    } else {
        spec_block_column(
            spec_clip_insert(
                m,
                IVec3 { x: x, y: (y + dy) as i32, z: z },
                BlockData {
                    id,
                    flipped: false,
                    direction: BlockDirection::Front,
                    breaking_progress: 0,
                },
            ),
            x,
            y,
            z,
            id,
            dy + 1,
            height,
        )
    }
}

/// The cells a tree occupies: a trunk of three to five blocks from the
/// height draw, a ring of four leaf blocks around the trunk top and one
/// above it, all clipped to the chunk cube.
pub open spec fn spec_tree(
    m: Map<IVec3, BlockData>,
    x: i32,
    y: i32,
    z: i32,
    trunk: BlockId,
    leaves: BlockId,
    height_draw: u64,
) -> Map<IVec3, BlockData> {
    let th = 3 + (height_draw % 3) as int;
    let leaf = BlockData {
        id: leaves,
        flipped: false,
        direction: BlockDirection::Front,
        breaking_progress: 0,
    };
    let ly = (y + th - 1) as i32;
    let m1 = spec_block_column(m, x, y, z, trunk, 0, th);
    let m2 = spec_clip_insert(m1, IVec3 { x: (x - 1) as i32, y: ly, z: z }, leaf);
    let m3 = spec_clip_insert(m2, IVec3 { x: (x + 1) as i32, y: ly, z: z }, leaf);
    let m4 = spec_clip_insert(m3, IVec3 { x: x, y: ly, z: (z - 1) as i32 }, leaf);
    let m5 = spec_clip_insert(m4, IVec3 { x: x, y: ly, z: (z + 1) as i32 }, leaf);
    spec_clip_insert(m5, IVec3 { x: x, y: (ly + 1) as i32, z: z }, leaf)
}

/// The cells a cactus occupies: a column of two or three blocks from the
/// height draw, clipped to the chunk cube.
pub open spec fn spec_cactus(
    m: Map<IVec3, BlockData>,
    x: i32,
    y: i32,
    z: i32,
    cactus: BlockId,
    height_draw: u64,
) -> Map<IVec3, BlockData> {
    spec_block_column(m, x, y, z, cactus, 0, 2 + (height_draw % 2) as int)
}

/// Grow a tree: exactly the cells of [`spec_tree`], nothing else.
pub fn generate_tree(
    chunk: &mut ServerChunk,
    x: i32,
    y: i32,
    z: i32,
    trunk: BlockId,
    leaves: BlockId,
    height_draw: u64,
)
    requires
        -1000 <= x <= 1000,
        0 <= y <= 1000,
        -1000 <= z <= 1000,
    ensures
        final(chunk).map@ == spec_tree(old(chunk).map@, x, y, z, trunk, leaves, height_draw),
        final(chunk).ts == old(chunk).ts,
{
    let ghost m0 = chunk.map@;
    let trunk_height: i32 = 3 + (height_draw % 3) as i32;
    let mut dy: i32 = 0;
    while dy < trunk_height
        invariant
            0 <= dy <= trunk_height,
            3 <= trunk_height <= 5,
            trunk_height as int == 3 + (height_draw % 3) as int,
            0 <= y <= 1000,
            -1000 <= x <= 1000,
            -1000 <= z <= 1000,
            chunk.ts == old(chunk).ts,
            spec_block_column(chunk.map@, x, y, z, trunk, dy as int, trunk_height as int)
                == spec_block_column(m0, x, y, z, trunk, 0, trunk_height as int),
        decreases trunk_height - dy,
    {
        clip_insert(
            chunk,
            IVec3::new(x, y + dy, z),
            BlockData::new(trunk, false, BlockDirection::Front),
        );
        dy = dy + 1;
    }
    let leaf_start_y = y + trunk_height - 1;
    clip_insert(
        chunk,
        IVec3::new(x - 1, leaf_start_y, z),
        BlockData::new(leaves, false, BlockDirection::Front),
    );
    clip_insert(
        chunk,
        IVec3::new(x + 1, leaf_start_y, z),
        BlockData::new(leaves, false, BlockDirection::Front),
    );
    clip_insert(
        chunk,
        IVec3::new(x, leaf_start_y, z - 1),
        BlockData::new(leaves, false, BlockDirection::Front),
    );
    clip_insert(
        chunk,
        IVec3::new(x, leaf_start_y, z + 1),
        BlockData::new(leaves, false, BlockDirection::Front),
    );
    clip_insert(
        chunk,
        IVec3::new(x, leaf_start_y + 1, z),
        BlockData::new(leaves, false, BlockDirection::Front),
    );
}

/// Grow a cactus: exactly the cells of [`spec_cactus`], nothing else.
pub fn generate_cactus(
    chunk: &mut ServerChunk,
    x: i32,
    y: i32,
    z: i32,
    cactus: BlockId,
    height_draw: u64,
)
    requires
        -1000 <= x <= 1000,
        0 <= y <= 1000,
        -1000 <= z <= 1000,
    ensures
        final(chunk).map@ == spec_cactus(old(chunk).map@, x, y, z, cactus, height_draw),
        final(chunk).ts == old(chunk).ts,
{
    let ghost m0 = chunk.map@;
    let cactus_height: i32 = 2 + (height_draw % 2) as i32;
    let mut dy: i32 = 0;
    while dy < cactus_height
        invariant
            0 <= dy <= cactus_height,
            2 <= cactus_height <= 3,
            cactus_height as int == 2 + (height_draw % 2) as int,
            0 <= y <= 1000,
            -1000 <= x <= 1000,
            -1000 <= z <= 1000,
            chunk.ts == old(chunk).ts,
            spec_block_column(chunk.map@, x, y, z, cactus, dy as int, cactus_height as int)
                == spec_block_column(m0, x, y, z, cactus, 0, cactus_height as int),
        decreases cactus_height - dy,
    {
        clip_insert(
            chunk,
            IVec3::new(x, y + dy, z),
            BlockData::new(cactus, false, BlockDirection::Front),
        );
        dy = dy + 1;
    }
}

/// Ring offset of neighbor `j`, row by row around the center column.
pub open spec fn spec_ring_offset(j: int) -> (int, int) {
    if j == 0 {
        (-4, -4)
    } else if j == 1 {
        (-4, 0)
    } else if j == 2 {
        (-4, 4)
    } else if j == 3 {
        (0, -4)
    } else if j == 4 {
        (0, 4)
    } else if j == 5 {
        (4, -4)
    } else if j == 6 {
        (4, 0)
    } else {
        (4, 4)
    }
}

/// Climate samples a chunk's generation reads: a 24-by-24 grid of
/// (temperature, humidity) pairs in thousandths, covering the chunk's
/// columns and their interpolation ring.
pub open spec fn spec_climate_ok(climate: Seq<Vec<(i64, i64)>>) -> bool {
    &&& climate.len() == 24
    &&& forall|gi: int|
        0 <= gi < 24 ==> (#[trigger] climate[gi])@.len() == 24 && forall|gj: int|
            0 <= gj < 24 ==> {
                let s = #[trigger] climate[gi]@[gj];
                0 <= s.0 <= 1000 && 0 <= s.1 <= 1000
            }
}

/// Terrain-noise samples a chunk's generation reads: one value in
/// thousandths per column.
pub open spec fn spec_terrain_ok(terrain: Seq<Vec<i64>>) -> bool {
    &&& terrain.len() == 16
    &&& forall|gi: int|
        0 <= gi < 16 ==> (#[trigger] terrain[gi])@.len() == 16 && forall|gj: int|
            0 <= gj < 16 ==> -2000 <= (#[trigger] terrain[gi]@[gj]) <= 2000
}

/// The ring of neighbor biomes around column `(dx, dz)`.
pub open spec fn spec_ring_biomes(climate: Seq<Vec<(i64, i64)>>, dx: int, dz: int) -> Seq<Biome> {
    Seq::new(
        8,
        |j: int|
            {
                let off = spec_ring_offset(j);
                let s = climate[dx + 4 + off.0]@[dz + 4 + off.1];
                spec_biome_data(spec_determine_biome(s.0 as int, s.1 as int))
            },
    )
}

/// Ground height of column `(dx, dz)` of a chunk: its own biome's profile
/// blended with the ring's by inverse-distance weighting, displaced by the
/// column's terrain noise.
#[verifier::opaque]
pub open spec fn spec_column_height(
    climate: Seq<Vec<(i64, i64)>>,
    terrain: Seq<Vec<i64>>,
    dx: int,
    dz: int,
) -> int {
    let s = climate[dx + 4]@[dz + 4];
    let center = spec_biome_data(spec_determine_biome(s.0 as int, s.1 as int));
    spec_interpolated_height(center, spec_ring_biomes(climate, dx, dz), terrain[dx]@[dz] as int)
}

/// The stochastic decoration placed on one surface cell, from the
/// deterministic per-column draws: perhaps a flower, perhaps tall grass on a
/// grassy biome, perhaps a tree or (in a desert) a cactus on a free cell.
pub open spec fn spec_decorate(
    m: Map<IVec3, BlockData>,
    center: Biome,
    seed: u32,
    x64: i64,
    z64: i64,
    dx: i32,
    dy: i32,
    dz: i32,
) -> Map<IVec3, BlockData> {
    let above = IVec3 { x: dx, y: (dy + 1) as i32, z: dz };
    let flower_chance = spec_decor_rand(seed, x64, z64, 1);
    let wants_flower = match center.biome_type {
        BiomeType::FlowerPlains => flower_chance < 100,
        BiomeType::Plains | BiomeType::Forest | BiomeType::MediumMountain => flower_chance < 20,
        _ => false,
    };
    let flower_type = if spec_decor_rand(seed, x64, z64, 2) < 500 {
        BlockId::Dandelion
    } else {
        BlockId::Poppy
    };
    let m1 = if wants_flower {
        spec_clip_insert(
            m,
            above,
            BlockData {
                id: flower_type,
                flipped: false,
                direction: BlockDirection::Front,
                breaking_progress: 0,
            },
        )
    } else {
        m
    };
    let grassy = !match center.biome_type {
        BiomeType::HighMountainGrass | BiomeType::Desert | BiomeType::IcePlain => true,
        _ => false,
    };
    let m2 = if grassy && spec_decor_rand(seed, x64, z64, 3) < 100 {
        spec_clip_insert(
            m1,
            above,
            BlockData {
                id: BlockId::TallGrass,
                flipped: false,
                direction: BlockDirection::Front,
                breaking_progress: 0,
            },
        )
    } else {
        m1
    };
    let tree_chance = spec_decor_rand(seed, x64, z64, 4);
    let wants_tree = match center.biome_type {
        BiomeType::Forest => tree_chance < 60,
        BiomeType::FlowerPlains | BiomeType::MediumMountain => tree_chance < 20,
        _ => false,
    };
    let m3 = if wants_tree && !m2.contains_key(above) {
        spec_tree(
            m2,
            dx,
            (dy + 1) as i32,
            dz,
            BlockId::OakLog,
            BlockId::OakLeaves,
            spec_decor_rand(seed, x64, z64, 6) as u64,
        )
    } else {
        m2
    };
    if center.biome_type == BiomeType::Desert && spec_decor_rand(seed, x64, z64, 5) < 10
        && !m3.contains_key(above) {
        spec_cactus(
            m3,
            dx,
            (dy + 1) as i32,
            dz,
            BlockId::Cactus,
            spec_decor_rand(seed, x64, z64, 7) as u64,
        )
    } else {
        m3
    }
}

/// One column of a chunk from cell `dy` up: fill each cell up to the ground
/// height (bedrock at the world floor, stone deep down, then the biome's
/// subsurface and surface blocks), and decorate the surface cell.
pub open spec fn spec_fill_column(
    m: Map<IVec3, BlockData>,
    cy: i32,
    center: Biome,
    h: int,
    seed: u32,
    x64: i64,
    z64: i64,
    dx: i32,
    dz: i32,
    dy: int,
) -> Map<IVec3, BlockData>
    decreases 16 - dy,
{
    if dy < 0 || dy >= 16 {
        m
    } else {
        let y64 = cy * 16 + dy;
        if y64 > h {
            m
        } else {
            let block_id = if y64 == 0 {
                BlockId::Bedrock
            } else if y64 < h - 4 {
                BlockId::Stone
            } else if y64 < h {
                center.sub_surface_block
            } else {
                center.surface_block
            };
            let m1 = m.insert(
                IVec3 { x: dx, y: dy as i32, z: dz },
                BlockData {
                    id: block_id,
                    flipped: false,
                    direction: BlockDirection::Front,
                    breaking_progress: 0,
                },
            );
            let m2 = if y64 == h && h >= 1 && dy < 15 {
                spec_decorate(m1, center, seed, x64, z64, dx, dy as i32, dz)
            } else {
                m1
            };
            spec_fill_column(m2, cy, center, h, seed, x64, z64, dx, dz, dy + 1)
        }
    }
}

/// The whole chunk content, column by column in row order.
pub open spec fn spec_fill_columns(
    m: Map<IVec3, BlockData>,
    chunk_pos: IVec3,
    seed: u32,
    climate: Seq<Vec<(i64, i64)>>,
    terrain: Seq<Vec<i64>>,
    dx: int,
    dz: int,
) -> Map<IVec3, BlockData>
    decreases 16 - dx, 16 - dz,
{
    if dx < 0 || dx >= 16 || dz < 0 {
        m
    } else if dz >= 16 {
        spec_fill_columns(m, chunk_pos, seed, climate, terrain, dx + 1, 0)
    } else {
        let sample = climate[dx + 4]@[dz + 4];
        let center = spec_biome_data(spec_determine_biome(sample.0 as int, sample.1 as int));
        let h = spec_column_height(climate, terrain, dx, dz);
        let x64 = (chunk_pos.x * 16 + dx) as i64;
        let z64 = (chunk_pos.z * 16 + dz) as i64;
        let m1 = spec_fill_column(
            m,
            chunk_pos.y,
            center,
            h,
            seed,
            x64,
            z64,
            dx as i32,
            dz as i32,
            0,
        );
        spec_fill_columns(m1, chunk_pos, seed, climate, terrain, dx, dz + 1)
    }
}

/// Everything a generated chunk holds, as a pure function of the chunk
/// coordinate, the seed and the noise samples.
pub open spec fn spec_generate_chunk(
    chunk_pos: IVec3,
    seed: u32,
    climate: Seq<Vec<(i64, i64)>>,
    terrain: Seq<Vec<i64>>,
) -> Map<IVec3, BlockData> {
    spec_fill_columns(
        Map::empty(),
        chunk_pos,
        seed,
        climate,
        terrain,
        0,
        0,
    )
}

/// Synthesize a chunk's initial content from its coordinate, the world seed
/// and the climate/terrain samples for its columns — exactly the content of
/// [`spec_generate_chunk`], a pure function of those inputs, so the same
/// inputs always regenerate the same chunk.
#[verifier::rlimit(100)]
pub fn generate_chunk(
    chunk_pos: IVec3,
    seed: u32,
    climate: &Vec<Vec<(i64, i64)>>,
    terrain: &Vec<Vec<i64>>,
) -> (c: ServerChunk)
    requires
        spec_climate_ok(climate@),
        spec_terrain_ok(terrain@),
        -100_000_000 <= chunk_pos.x <= 100_000_000,
        -100_000_000 <= chunk_pos.y <= 100_000_000,
        -100_000_000 <= chunk_pos.z <= 100_000_000,
    ensures
        c.ts == 0,
        c.map@ == spec_generate_chunk(chunk_pos, seed, climate@, terrain@),
{
    let mut chunk = ServerChunk::empty(0);
    let cx = chunk_pos.x;
    let cy = chunk_pos.y;
    let cz = chunk_pos.z;
    let mut dx: i32 = 0;
    while dx < 16
        invariant
            0 <= dx <= 16,
            chunk.ts == 0,
            spec_climate_ok(climate@),
            spec_terrain_ok(terrain@),
            -100_000_000 <= cx <= 100_000_000,
            -100_000_000 <= cy <= 100_000_000,
            -100_000_000 <= cz <= 100_000_000,
            cx == chunk_pos.x && cy == chunk_pos.y && cz == chunk_pos.z,
            spec_fill_columns(chunk.map@, chunk_pos, seed, climate@, terrain@, dx as int, 0)
                == spec_generate_chunk(chunk_pos, seed, climate@, terrain@),
        decreases 16 - dx,
    {
        let mut dz: i32 = 0;
        while dz < 16
            invariant
                0 <= dx < 16,
                0 <= dz <= 16,
                chunk.ts == 0,
                spec_climate_ok(climate@),
                spec_terrain_ok(terrain@),
                -100_000_000 <= cx <= 100_000_000,
                -100_000_000 <= cy <= 100_000_000,
                -100_000_000 <= cz <= 100_000_000,
                cx == chunk_pos.x && cy == chunk_pos.y && cz == chunk_pos.z,
                spec_fill_columns(
                    chunk.map@,
                    chunk_pos,
                    seed,
                    climate@,
                    terrain@,
                    dx as int,
                    dz as int,
                ) == spec_generate_chunk(chunk_pos, seed, climate@, terrain@),
            decreases 16 - dz,
        {
            // climate of this column and of its interpolation ring
            let s = climate[(dx + 4) as usize][(dz + 4) as usize];
            let center = get_biome_data(determine_biome(s.0, s.1));
            let mut ring: Vec<Biome> = Vec::new();
            let s0 = climate[(dx + 0) as usize][(dz + 0) as usize];
            ring.push(get_biome_data(determine_biome(s0.0, s0.1)));
            let s1 = climate[(dx + 0) as usize][(dz + 4) as usize];
            ring.push(get_biome_data(determine_biome(s1.0, s1.1)));
            let s2 = climate[(dx + 0) as usize][(dz + 8) as usize];
            ring.push(get_biome_data(determine_biome(s2.0, s2.1)));
            let s3 = climate[(dx + 4) as usize][(dz + 0) as usize];
            ring.push(get_biome_data(determine_biome(s3.0, s3.1)));
            let s4 = climate[(dx + 4) as usize][(dz + 8) as usize];
            ring.push(get_biome_data(determine_biome(s4.0, s4.1)));
            let s5 = climate[(dx + 8) as usize][(dz + 0) as usize];
            ring.push(get_biome_data(determine_biome(s5.0, s5.1)));
            let s6 = climate[(dx + 8) as usize][(dz + 4) as usize];
            ring.push(get_biome_data(determine_biome(s6.0, s6.1)));
            let s7 = climate[(dx + 8) as usize][(dz + 8) as usize];
            ring.push(get_biome_data(determine_biome(s7.0, s7.1)));
            proof {
                assert(ring@ =~= spec_ring_biomes(climate@, dx as int, dz as int));
            }
            let noise = terrain[dx as usize][dz as usize];
            let h = interpolated_height(center, &ring, noise);
            proof {
                reveal(spec_column_height);
                assert(h as int == spec_column_height(climate@, terrain@, dx as int, dz as int));
            }
            let x64: i64 = cx as i64 * 16 + dx as i64;
            let z64: i64 = cz as i64 * 16 + dz as i64;
            let ghost col_start = chunk.map@;
            let mut dy: i32 = 0;
            while dy < 16
                invariant_except_break
                    0 <= dy <= 16,
                    h as int == spec_column_height(climate@, terrain@, dx as int, dz as int),
                    -2000 <= h <= 3000,
                    0 <= dx < 16,
                    0 <= dz < 16,
                    chunk.ts == 0,
                    -100_000_000 <= cy <= 100_000_000,
                    cy == chunk_pos.y,
                    -2_147_483_648 <= x64 <= 2_147_483_647,
                    -2_147_483_648 <= z64 <= 2_147_483_647,
                    x64 as int == chunk_pos.x * 16 + dx,
                    z64 as int == chunk_pos.z * 16 + dz,
                    center == spec_biome_data(
                        spec_determine_biome(
                            climate@[dx as int + 4]@[dz as int + 4].0 as int,
                            climate@[dx as int + 4]@[dz as int + 4].1 as int,
                        ),
                    ),
                    spec_fill_column(
                        chunk.map@,
                        cy,
                        center,
                        h as int,
                        seed,
                        x64,
                        z64,
                        dx,
                        dz,
                        dy as int,
                    ) == spec_fill_column(
                        col_start,
                        cy,
                        center,
                        h as int,
                        seed,
                        x64,
                        z64,
                        dx,
                        dz,
                        0,
                    ),
                ensures
                    chunk.ts == 0,
                    chunk.map@ == spec_fill_column(
                        col_start,
                        cy,
                        center,
                        h as int,
                        seed,
                        x64,
                        z64,
                        dx,
                        dz,
                        0,
                    ),
                decreases 16 - dy,
            {
                let y64: i64 = cy as i64 * 16 + dy as i64;
                if y64 > h {
                    break;
                }
                let block_id = if y64 == 0 {
                    BlockId::Bedrock
                } else if y64 < h - 4 {
                    BlockId::Stone
                } else if y64 < h {
                    center.sub_surface_block
                } else {
                    center.surface_block
                };
                let ghost pre = chunk.map@;
                chunk.map.insert(
                    IVec3::new(dx, dy, dz),
                    BlockData::new(block_id, false, BlockDirection::Front),
                );
                let ghost m1 = chunk.map@;
                // stochastic decoration on the surface cell
                if y64 == h && h >= 1 && dy < 15 {
                    let above = IVec3::new(dx, dy + 1, dz);
                    let flower_chance = decor_rand(seed, x64, z64, 1);
                    let wants_flower = match center.biome_type {
                        BiomeType::FlowerPlains => flower_chance < 100,
                        BiomeType::Plains | BiomeType::Forest | BiomeType::MediumMountain => {
                            flower_chance < 20
                        },
                        _ => false,
                    };
                    if wants_flower {
                        let flower_type = if decor_rand(seed, x64, z64, 2) < 500 {
                            BlockId::Dandelion
                        } else {
                            BlockId::Poppy
                        };
                        clip_insert(
                            &mut chunk,
                            above,
                            BlockData::new(flower_type, false, BlockDirection::Front),
                        );
                    }
                    let grassy = !matches!(
                        center.biome_type,
                        BiomeType::HighMountainGrass | BiomeType::Desert | BiomeType::IcePlain
                    );
                    if grassy {
                        if decor_rand(seed, x64, z64, 3) < 100 {
                            clip_insert(
                                &mut chunk,
                                above,
                                BlockData::new(BlockId::TallGrass, false, BlockDirection::Front),
                            );
                        }
                    }
                    let tree_chance = decor_rand(seed, x64, z64, 4);
                    let wants_tree = match center.biome_type {
                        BiomeType::Forest => tree_chance < 60,
                        BiomeType::FlowerPlains | BiomeType::MediumMountain => tree_chance < 20,
                        _ => false,
                    };
                    if wants_tree && !chunk.map.contains_key(&above) {
                        generate_tree(
                            &mut chunk,
                            dx,
                            dy + 1,
                            dz,
                            BlockId::OakLog,
                            BlockId::OakLeaves,
                            decor_rand(seed, x64, z64, 6),
                        );
                    }
                    if matches!(center.biome_type, BiomeType::Desert) {
                        if decor_rand(seed, x64, z64, 5) < 10 && !chunk.map.contains_key(&above) {
                            generate_cactus(
                                &mut chunk,
                                dx,
                                dy + 1,
                                dz,
                                BlockId::Cactus,
                                decor_rand(seed, x64, z64, 7),
                            );
                        }
                    }
                    proof {
                        assert(chunk.map@ == spec_decorate(
                            m1,
                            center,
                            seed,
                            x64,
                            z64,
                            dx,
                            dy,
                            dz,
                        ));
                    }
                }
                dy = dy + 1;
            }
            proof {
                assert(spec_fill_columns(
                    chunk.map@,
                    chunk_pos,
                    seed,
                    climate@,
                    terrain@,
                    dx as int,
                    dz as int + 1,
                ) == spec_generate_chunk(chunk_pos, seed, climate@, terrain@));
            }
            dz = dz + 1;
        }
        dx = dx + 1;
    }
    chunk
}

} // verus!
