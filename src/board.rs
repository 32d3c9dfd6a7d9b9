use indexmap::IndexMap;
use rand::Rng;
use vstd::prelude::*;
use crate::hexagon::{HexCoordinates, hex_norm};

verus! {

#[verifier::external_type_specification]
#[verifier::external_body]
#[verifier::reject_recursive_types(K)]
#[verifier::reject_recursive_types(V)]
#[verifier::reject_recursive_types(S)]
pub struct ExIndexMap<K, V, S>(IndexMap<K, V, S>);

/// The key under which a cell is stored.
pub type CellKey = (i32, i32, i32);

/// The entries of a tile map, in insertion order: a cell and whether it is a hole.
pub uninterp spec fn tile_entries(m: IndexMap<CellKey, bool>) -> Seq<(CellKey, bool)>;

/// Relies on indexmap's IndexMap::new: a map with no entries.
#[verifier::external_body]
fn tile_map_new() -> (m: IndexMap<CellKey, bool>)
    ensures
        tile_entries(m).len() == 0,
{
    IndexMap::new()
}

/// Relies on indexmap's IndexMap::insert: a present key keeps its place and
/// takes the new value; an absent one is added last.
#[verifier::external_body]
fn tile_map_insert(m: &mut IndexMap<CellKey, bool>, k: CellKey, v: bool)
    ensures
        forall|i: int|
            0 <= i < tile_entries(*old(m)).len() && tile_entries(*old(m))[i].0 == k
                ==> tile_entries(*final(m)) == tile_entries(*old(m)).update(i, (k, v)),
        (forall|i: int|
            0 <= i < tile_entries(*old(m)).len() ==> tile_entries(*old(m))[i].0 != k)
            ==> tile_entries(*final(m)) == tile_entries(*old(m)).push((k, v)),
{
    m.insert(k, v);
}

/// Relies on indexmap's IndexMap::len: the number of entries.
#[verifier::external_body]
fn tile_map_len(m: &IndexMap<CellKey, bool>) -> (n: usize)
    ensures
        n == tile_entries(*m).len(),
{
    m.len()
}

/// Relies on indexmap's IndexMap::get: the value stored under a key.
#[verifier::external_body]
fn tile_map_get(m: &IndexMap<CellKey, bool>, k: &CellKey) -> (r: Option<bool>)
    ensures
        forall|i: int|
            0 <= i < tile_entries(*m).len() && tile_entries(*m)[i].0 == *k ==> r == Some(
                tile_entries(*m)[i].1,
            ),
        (forall|i: int| 0 <= i < tile_entries(*m).len() ==> tile_entries(*m)[i].0 != *k)
            ==> r.is_none(),
{
    m.get(k).copied()
}

/// Relies on indexmap's IndexMap::get_index: the entry at a position of the order.
#[verifier::external_body]
fn tile_map_get_index(m: &IndexMap<CellKey, bool>, i: usize) -> (r: Option<(CellKey, bool)>)
    ensures
        i < tile_entries(*m).len() ==> r == Some(tile_entries(*m)[i as int]),
        i >= tile_entries(*m).len() ==> r.is_none(),
{
    m.get_index(i).map(|(k, v)| (*k, *v))
}

/// Relies on rand's Rng::gen_range on thread_rng: a number drawn from [0, n).
#[verifier::external_body]
pub(crate) fn random_below(n: usize) -> (r: usize)
    requires
        n > 0,
    ensures
        r < n,
{
    rand::thread_rng().gen_range(0..n)
}

pub open spec fn key_of(c: HexCoordinates) -> CellKey {
    (c.r, c.g, c.b)
}

pub open spec fn cell_of(k: CellKey) -> HexCoordinates {
    HexCoordinates { r: k.0, g: k.1, b: k.2 }
}

pub open spec fn has_key(e: Seq<(CellKey, bool)>, k: CellKey) -> bool {
    exists|i: int| 0 <= i < e.len() && #[trigger] e[i].0 == k
}

pub open spec fn keys_unique(e: Seq<(CellKey, bool)>) -> bool {
    forall|i: int, j: int| 0 <= i < e.len() && 0 <= j < e.len() && i != j ==> e[i].0 != e[j].0
}

/// The value stored under a key, if any.
pub open spec fn lookup(e: Seq<(CellKey, bool)>, k: CellKey) -> Option<bool> {
    if has_key(e, k) {
        Some(e[choose|i: int| 0 <= i < e.len() && #[trigger] e[i].0 == k].1)
    } else {
        None
    }
}

/// The cell is on the grid and within `radius` of the origin.
pub open spec fn in_hexagon(c: HexCoordinates, radius: int) -> bool {
    c.on_grid() && c.norm() <= radius
}

/// A cell within a board's radius can step in any direction without overflow.
pub proof fn lemma_in_hexagon_movable(c: HexCoordinates, radius: int)
    requires
        in_hexagon(c, radius),
        radius <= MAX_RADIUS,
    ensures
        c.movable(),
{
}

pub proof fn lemma_lookup_at(e: Seq<(CellKey, bool)>, j: int)
    requires
        keys_unique(e),
        0 <= j < e.len(),
    ensures
        lookup(e, e[j].0) == Some(e[j].1),
{
    assert(has_key(e, e[j].0));
}

/// A tile of the board: its cell and whether it is a hole.
#[derive(Copy, Clone, Debug, PartialEq, Eq, Structural)]
pub struct Tile {
    pub hex: HexCoordinates,
    pub is_hole: bool,
}

impl Tile {
    pub open spec fn cell(&self) -> HexCoordinates {
        self.hex
    }

    pub open spec fn hole(&self) -> bool {
        self.is_hole
    }

    /// A tile at (r, g, b); note the order of the parameters.
    pub fn new(r: i32, b: i32, g: i32, is_wall: bool) -> (t: Tile)
        ensures
            t.cell() == (HexCoordinates { r, g, b }),
            t.hole() == is_wall,
    {
        Tile { hex: HexCoordinates::new(r, g, b), is_hole: is_wall }
    }

    pub fn is_hole(&self) -> (r: bool)
        ensures
            r == self.hole(),
    {
        self.is_hole
    }

    pub fn set_as_hole(&mut self)
        ensures
            final(self).hole(),
            final(self).cell() == old(self).cell(),
    {
        self.is_hole = true;
    }

    pub fn coordinates(&self) -> (c: HexCoordinates)
        ensures
            c == self.cell(),
    {
        self.hex
    }
}

/// The playing field: every cell within the radius, each either ground or a hole.
pub struct Board {
    tiles: IndexMap<CellKey, bool>,
    radius: i32,
}

/// The largest radius a board may have: the third component of a cell,
/// `-r - g`, must fit in an `i32`, and every cell must be able to take a step
/// in any direction.
pub const MAX_RADIUS: i32 = 1073741823;

/// How many uniform draws a random pick of ground makes before it scans.
pub const MAX_DRAWS: usize = 1000;

impl Board {
    pub closed spec fn entries(&self) -> Seq<(CellKey, bool)> {
        tile_entries(self.tiles)
    }

    pub closed spec fn spec_radius(&self) -> int {
        self.radius as int
    }

    /// Whether the cell is a hole, or `None` when it is not on the board.
    pub open spec fn tile_at(&self, c: HexCoordinates) -> Option<bool> {
        lookup(self.entries(), key_of(c))
    }

    pub open spec fn is_ground(&self, c: HexCoordinates) -> bool {
        self.tile_at(c) == Some(false)
    }

    pub closed spec fn wf(&self) -> bool {
        &&& 0 <= self.radius <= MAX_RADIUS
        &&& keys_unique(self.entries())
        &&& forall|i: int|
            0 <= i < self.entries().len() ==> in_hexagon(
                #[trigger] cell_of(self.entries()[i].0),
                self.radius as int,
            )
        &&& forall|c: HexCoordinates| #[trigger]
            in_hexagon(c, self.radius as int) ==> has_key(self.entries(), key_of(c))
        &&& forall|i: int|
            0 <= i < self.entries().len() && (#[trigger] cell_of(self.entries()[i].0)).norm()
                == self.radius ==> self.entries()[i].1
    }

    /// Builds the board of the given radius: every cell within the radius,
    /// holes on the outer ring and ground inside it.
    pub fn new(radius: i32) -> (b: Board)
        requires
            0 <= radius <= MAX_RADIUS,
        ensures
            b.wf(),
            b.spec_radius() == radius,
            forall|c: HexCoordinates|
                (#[trigger] b.tile_at(c)).is_some() <==> in_hexagon(c, radius as int),
            forall|c: HexCoordinates|
                in_hexagon(c, radius as int) ==> b.tile_at(c) == Some(c.norm() == radius),
    {
        let mut tiles = tile_map_new();
        let mut r: i32 = -radius;
        while r <= radius
            invariant
                0 <= radius <= MAX_RADIUS,
                -radius <= r <= radius + 1,
                keys_unique(tile_entries(tiles)),
                forall|i: int|
                    0 <= i < tile_entries(tiles).len() ==> {
                        let c = #[trigger] cell_of(tile_entries(tiles)[i].0);
                        &&& in_hexagon(c, radius as int)
                        &&& c.r < r
                        &&& tile_entries(tiles)[i].1 == (c.norm() == radius)
                    },
                forall|c: HexCoordinates| #[trigger]
                    in_hexagon(c, radius as int) && c.r < r ==> has_key(
                        tile_entries(tiles),
                        key_of(c),
                    ),
            decreases radius + 1 - r,
        {
            let mut g: i32 = -radius;
            while g <= radius
                invariant
                    0 <= radius <= MAX_RADIUS,
                    -radius <= r <= radius,
                    -radius <= g <= radius + 1,
                    keys_unique(tile_entries(tiles)),
                    forall|i: int|
                        0 <= i < tile_entries(tiles).len() ==> {
                            let c = #[trigger] cell_of(tile_entries(tiles)[i].0);
                            &&& in_hexagon(c, radius as int)
                            &&& (c.r < r || (c.r == r && c.g < g))
                            &&& tile_entries(tiles)[i].1 == (c.norm() == radius)
                        },
                    forall|c: HexCoordinates| #[trigger]
                        in_hexagon(c, radius as int) && (c.r < r || (c.r == r && c.g < g))
                            ==> has_key(tile_entries(tiles), key_of(c)),
                decreases radius + 1 - g,
            {
                let b: i32 = -r - g;
                if -radius <= b && b <= radius {
                    let ar: i32 = if r < 0 { -r } else { r };
                    let ag: i32 = if g < 0 { -g } else { g };
                    let ab: i32 = if b < 0 { -b } else { b };
                    let wall = ar == radius || ag == radius || ab == radius;
                    let ghost e0 = tile_entries(tiles);
                    let ghost nc = HexCoordinates { r, g, b };
                    assert forall|i: int| 0 <= i < e0.len() implies e0[i].0 != (r, g, b) by {
                        let c = cell_of(e0[i].0);
                        assert(c.r < r || (c.r == r && c.g < g));
                    }
                    tile_map_insert(&mut tiles, (r, g, b), wall);
                    let ghost e1 = tile_entries(tiles);
                    assert(e1 == e0.push(((r, g, b), wall)));
                    assert(cell_of(e1[e0.len() as int].0) == nc);
                    assert forall|c: HexCoordinates| #[trigger]
                        in_hexagon(c, radius as int) && (c.r < r || (c.r == r && c.g < g + 1))
                            implies has_key(e1, key_of(c)) by {
                        if c.r == r && c.g == g {
                            assert(c == nc);
                            assert(e1[e0.len() as int].0 == key_of(c));
                        } else {
                            assert(has_key(e0, key_of(c)));
                            let i = choose|i: int| 0 <= i < e0.len() && #[trigger] e0[i].0 == key_of(c);
                            assert(e1[i].0 == key_of(c));
                        }
                    }
                } else {
                    assert forall|c: HexCoordinates| #[trigger]
                        in_hexagon(c, radius as int) && (c.r < r || (c.r == r && c.g < g + 1))
                            implies has_key(tile_entries(tiles), key_of(c)) by {
                        if c.r == r && c.g == g {
                            assert(c.b == b);
                        }
                    }
                }
                g = g + 1;
            }
            r = r + 1;
        }
        let board = Board { tiles, radius };
        assert forall|c: HexCoordinates|
            in_hexagon(c, radius as int) implies board.tile_at(c) == Some(c.norm() == radius) by {
            assert(has_key(board.entries(), key_of(c)));
            let i = choose|i: int|
                0 <= i < board.entries().len() && #[trigger] board.entries()[i].0 == key_of(c);
            lemma_lookup_at(board.entries(), i);
            assert(cell_of(board.entries()[i].0) == c);
        }
        assert forall|c: HexCoordinates|
            (#[trigger] board.tile_at(c)).is_some() implies in_hexagon(c, radius as int) by {
            let i = choose|i: int|
                0 <= i < board.entries().len() && #[trigger] board.entries()[i].0 == key_of(c);
            assert(cell_of(board.entries()[i].0) == c);
        }
        board
    }

    /// The number of tiles.
    pub open spec fn count(&self) -> int {
        self.entries().len() as int
    }

    /// The tile at a position of the board's order: its cell and whether it is a hole.
    pub open spec fn entry(&self, i: int) -> (HexCoordinates, bool) {
        (cell_of(self.entries()[i].0), self.entries()[i].1)
    }

    /// A well-formed board holds exactly the cells within its radius, its
    /// outer ring is made of holes, and every tile of its order is the one
    /// that a lookup of its cell finds.
    pub proof fn lemma_shape(&self)
        requires
            self.wf(),
        ensures
            0 <= self.spec_radius() <= MAX_RADIUS,
            forall|c: HexCoordinates|
                (#[trigger] self.tile_at(c)).is_some() <==> in_hexagon(c, self.spec_radius()),
            forall|c: HexCoordinates|
                in_hexagon(c, self.spec_radius()) && c.norm() == self.spec_radius()
                    ==> #[trigger] self.tile_at(c) == Some(true),
            forall|i: int|
                0 <= i < self.count() ==> self.tile_at((#[trigger] self.entry(i)).0) == Some(
                    self.entry(i).1,
                ),
    {
        let e = self.entries();
        assert forall|c: HexCoordinates|
            (#[trigger] self.tile_at(c)).is_some() <==> in_hexagon(c, self.spec_radius()) by {
            if self.tile_at(c).is_some() {
                let i = choose|i: int| 0 <= i < e.len() && #[trigger] e[i].0 == key_of(c);
                assert(cell_of(e[i].0) == c);
            }
        }
        assert forall|c: HexCoordinates|
            in_hexagon(c, self.spec_radius()) && c.norm() == self.spec_radius()
                implies #[trigger] self.tile_at(c) == Some(true) by {
            assert(has_key(e, key_of(c)));
            let i = choose|i: int| 0 <= i < e.len() && #[trigger] e[i].0 == key_of(c);
            assert(cell_of(e[i].0) == c);
            lemma_lookup_at(e, i);
        }
        assert forall|i: int| 0 <= i < self.count() implies self.tile_at(
            (#[trigger] self.entry(i)).0,
        ) == Some(self.entry(i).1) by {
            lemma_lookup_at(e, i);
            assert(key_of(cell_of(e[i].0)) == e[i].0);
        }
    }

    pub fn radius(&self) -> (r: i32)
        ensures
            r == self.spec_radius(),
    {
        self.radius
    }

    pub fn len(&self) -> (n: usize)
        ensures
            n == self.count(),
    {
        tile_map_len(&self.tiles)
    }

    /// The tile on a cell, or `None` when the cell is not on the board.
    pub fn get(&self, c: &HexCoordinates) -> (r: Option<Tile>)
        ensures
            r.is_some() == self.tile_at(*c).is_some(),
            r.is_some() ==> r.unwrap().hex == *c && r.unwrap().is_hole == self.tile_at(
                *c,
            ).unwrap(),
    {
        let k = (c.r, c.g, c.b);
        let found = tile_map_get(&self.tiles, &k);
        proof {
            let e = self.entries();
            if has_key(e, k) {
                let i = choose|i: int| 0 <= i < e.len() && #[trigger] e[i].0 == k;
                assert(found == Some(e[i].1));
            }
        }
        match found {
            Some(h) => Some(Tile { hex: *c, is_hole: h }),
            None => None,
        }
    }

    /// The tile at a position of the board's order.
    pub fn tile_at_index(&self, i: usize) -> (r: Option<Tile>)
        ensures
            i < self.count() ==> r == Some(
                Tile { hex: self.entry(i as int).0, is_hole: self.entry(i as int).1 },
            ),
            i >= self.count() ==> r.is_none(),
    {
        match tile_map_get_index(&self.tiles, i) {
            Some((k, h)) => Some(Tile { hex: HexCoordinates::new(k.0, k.1, k.2), is_hole: h }),
            None => None,
        }
    }

    /// Turns the tile on a cell into a hole; a cell off the board or already
    /// a hole is left as it is.
    pub fn punch_hole(&mut self, c: &HexCoordinates)
        requires
            old(self).wf(),
        ensures
            final(self).wf(),
            final(self).spec_radius() == old(self).spec_radius(),
            final(self).count() == old(self).count(),
            forall|x: HexCoordinates| #[trigger]
                final(self).tile_at(x) == if x == *c && old(self).tile_at(x).is_some() {
                    Some(true)
                } else {
                    old(self).tile_at(x)
                },
    {
        let k = (c.r, c.g, c.b);
        let found = tile_map_get(&self.tiles, &k);
        let ghost e0 = self.entries();
        if found == Some(false) {
            proof {
                assert(has_key(e0, k));
            }
            let ghost i = choose|i: int| 0 <= i < e0.len() && #[trigger] e0[i].0 == k;
            tile_map_insert(&mut self.tiles, k, true);
            let ghost e1 = self.entries();
            assert(e1 == e0.update(i, (k, true)));
            assert forall|j: int| 0 <= j < e1.len() implies #[trigger] e1[j].0 == e0[j].0 by {}
            assert(keys_unique(e1));
            assert forall|j: int| 0 <= j < e1.len() implies in_hexagon(
                #[trigger] cell_of(e1[j].0),
                self.radius as int,
            ) by {
                assert(cell_of(e1[j].0) == cell_of(e0[j].0));
            }
            assert forall|x: HexCoordinates| #[trigger]
                in_hexagon(x, self.radius as int) implies has_key(e1, key_of(x)) by {
                assert(has_key(e0, key_of(x)));
                let j = choose|j: int| 0 <= j < e0.len() && #[trigger] e0[j].0 == key_of(x);
                assert(e1[j].0 == key_of(x));
            }
            assert forall|j: int|
                0 <= j < e1.len() && (#[trigger] cell_of(e1[j].0)).norm() == self.radius
                    implies e1[j].1 by {
                assert(cell_of(e1[j].0) == cell_of(e0[j].0));
            }
            assert forall|x: HexCoordinates| #[trigger]
                self.tile_at(x) == if x == *c && lookup(e0, key_of(x)).is_some() {
                    Some(true)
                } else {
                    lookup(e0, key_of(x))
                } by {
                if has_key(e0, key_of(x)) {
                    let j = choose|j: int| 0 <= j < e0.len() && #[trigger] e0[j].0 == key_of(x);
                    lemma_lookup_at(e0, j);
                    assert(e1[j].0 == key_of(x));
                    lemma_lookup_at(e1, j);
                } else {
                    if has_key(e1, key_of(x)) {
                        let j = choose|j: int| 0 <= j < e1.len() && #[trigger] e1[j].0 == key_of(x);
                        assert(e0[j].0 == key_of(x));
                    }
                }
            }
        } else {
            proof {
                assert forall|x: HexCoordinates| #[trigger]
                    self.tile_at(x) == if x == *c && lookup(e0, key_of(x)).is_some() {
                        Some(true)
                    } else {
                        lookup(e0, key_of(x))
                    } by {
                    if x == *c && has_key(e0, key_of(x)) {
                        let j = choose|j: int| 0 <= j < e0.len() && #[trigger] e0[j].0 == key_of(x);
                        lemma_lookup_at(e0, j);
                    }
                }
            }
        }
    }

    /// The cell at a position of the board's order when that tile is
    /// ground, and `None` when it is a hole or the position is past the end.
    pub fn ground_at_index(&self, i: usize) -> (r: Option<HexCoordinates>)
        ensures
            r == if i < self.count() && !self.entry(i as int).1 {
                Some(self.entry(i as int).0)
            } else {
                None
            },
    {
        match self.tile_at_index(i) {
            Some(t) => {
                if t.is_hole {
                    None
                } else {
                    Some(t.hex)
                }
            },
            None => None,
        }
    }

    /// A ground cell drawn at random: up to a fixed number of uniform draws
    /// over the whole board, then the first ground cell in the board's order.
    /// `None` exactly when the board has no ground left.
    pub fn random_ground_tile(&self) -> (r: Option<HexCoordinates>)
        requires
            self.wf(),
        ensures
            r.is_some() ==> self.is_ground(r.unwrap()),
            r.is_none() <==> forall|c: HexCoordinates| !#[trigger] self.is_ground(c),
    {
        proof {
            self.lemma_shape();
        }
        let n = self.len();
        if n > 0 {
            let mut draws: usize = 0;
            while draws < MAX_DRAWS
                invariant
                    self.wf(),
                    n == self.count(),
                    n > 0,
                decreases MAX_DRAWS - draws,
            {
                let i = random_below(n);
                let found = self.ground_at_index(i);
                if found.is_some() {
                    proof {
                        self.lemma_shape();
                        assert(self.is_ground(found.unwrap()));
                    }
                    return found;
                }
                draws = draws + 1;
            }
        }
        let mut j: usize = 0;
        while j < n
            invariant
                self.wf(),
                n == self.count(),
                j <= n,
                forall|k: int| 0 <= k < j ==> (#[trigger] self.entry(k)).1,
            decreases n - j,
        {
            let found = self.ground_at_index(j);
            if found.is_some() {
                proof {
                    self.lemma_shape();
                    assert(self.is_ground(found.unwrap()));
                }
                return found;
            }
            j = j + 1;
        }
        proof {
            assert forall|c: HexCoordinates| !#[trigger] self.is_ground(c) by {
                let e = self.entries();
                if self.is_ground(c) {
                    let k = choose|k: int| 0 <= k < e.len() && #[trigger] e[k].0 == key_of(c);
                    lemma_lookup_at(e, k);
                    assert(self.entry(k).1);
                }
            }
        }
        None
    }
}

} // verus!
