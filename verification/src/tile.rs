//! Tile values: the model catalog tag, the quarter-turn rotation, and the
//! tile itself (height, model, rotation).

use vstd::prelude::*;

use crate::vertex::Vertex;

verus! {

/// The shape a tile renders as. `swap_model` cycles the fixed ring
/// Wall -> Floor -> Corner -> InnerCorner -> Wall.
#[derive(Clone, Copy, Debug, PartialEq, Eq, Structural)]
pub enum Model {
    Wall,
    Corner,
    InnerCorner,
    Floor,
}

/// A rotation about the vertical axis by a multiple of a quarter turn,
/// counter-clockwise. `rotate_next` cycles
/// Zero -> Quarter -> Half -> ThreeQuarters -> Zero.
#[derive(Clone, Copy, Debug, PartialEq, Eq, Structural)]
pub enum TileRotation {
    Zero,
    Quarter,
    Half,
    ThreeQuarters,
}

/// One map cell: a height in world units, a model, and a rotation.
#[derive(Clone, Copy, Debug, PartialEq, Eq, Structural)]
pub struct Tile {
    pub height: u8,
    pub model: Model,
    pub rotation: TileRotation,
}

/// The successor of a model on the swap ring.
pub open spec fn swap_model_spec(m: Model) -> Model {
    match m {
        Model::Wall => Model::Floor,
        Model::Floor => Model::Corner,
        Model::Corner => Model::InnerCorner,
        Model::InnerCorner => Model::Wall,
    }
}

/// The successor of a rotation: one more counter-clockwise quarter turn.
pub open spec fn rotate_next_spec(r: TileRotation) -> TileRotation {
    match r {
        TileRotation::Zero => TileRotation::Quarter,
        TileRotation::Quarter => TileRotation::Half,
        TileRotation::Half => TileRotation::ThreeQuarters,
        TileRotation::ThreeQuarters => TileRotation::Zero,
    }
}

/// One counter-clockwise quarter turn about the vertical axis:
/// position (x, y, z) maps to (z, y, -x); texture coordinates are unchanged.
pub open spec fn quarter_turn(v: Vertex) -> Vertex {
    Vertex {
        pos_x: v.pos_z,
        pos_y: v.pos_y,
        pos_z: (-(v.pos_x as int)) as i64,
        tex_u: v.tex_u,
        tex_v: v.tex_v,
    }
}

/// A vertex rotated by `r`: the quarter turn applied zero to three times.
pub open spec fn rotated_vertex(r: TileRotation, v: Vertex) -> Vertex {
    match r {
        TileRotation::Zero => v,
        TileRotation::Quarter => quarter_turn(v),
        TileRotation::Half => quarter_turn(quarter_turn(v)),
        TileRotation::ThreeQuarters => quarter_turn(quarter_turn(quarter_turn(v))),
    }
}

impl Model {
    /// Step this model to the next one on the swap ring.
    pub fn swap_model(&mut self)
        ensures
            *final(self) == swap_model_spec(*old(self)),
    {
        match *self {
            Model::Wall => {
                *self = Model::Floor;
            },
            Model::Floor => {
                *self = Model::Corner;
            },
            Model::Corner => {
                *self = Model::InnerCorner;
            },
            Model::InnerCorner => {
                *self = Model::Wall;
            },
        }
    }
}

impl TileRotation {
    /// Rotate a single vertex by this rotation, exactly.
    pub fn rotate_vertice(&self, vertice: &Vertex) -> (r: Vertex)
        requires
            vertice.pos_x > i64::MIN,
            vertice.pos_z > i64::MIN,
        ensures
            r == rotated_vertex(*self, *vertice),
    {
        match *self {
            TileRotation::Zero => *vertice,
            TileRotation::Quarter => rotate_90(vertice),
            TileRotation::Half => rotate_90(&rotate_90(vertice)),
            TileRotation::ThreeQuarters => rotate_90(&rotate_90(&rotate_90(vertice))),
        }
    }

    /// Step this rotation one more quarter turn along the cycle.
    pub fn rotate_next(&mut self)
        ensures
            *final(self) == rotate_next_spec(*old(self)),
    {
        match *self {
            TileRotation::Zero => {
                *self = TileRotation::Quarter;
            },
            TileRotation::Quarter => {
                *self = TileRotation::Half;
            },
            TileRotation::Half => {
                *self = TileRotation::ThreeQuarters;
            },
            TileRotation::ThreeQuarters => {
                *self = TileRotation::Zero;
            },
        }
    }
}

/// One executable counter-clockwise quarter turn of a vertex.
fn rotate_90(v: &Vertex) -> (r: Vertex)
    requires
        v.pos_x > i64::MIN,
    ensures
        r == quarter_turn(*v),
        v.pos_z > i64::MIN ==> r.pos_x > i64::MIN,
        r.pos_z > i64::MIN,
    {
    Vertex {
        pos_x: v.pos_z,
        pos_y: v.pos_y,
        pos_z: -v.pos_x,
        tex_u: v.tex_u,
        tex_v: v.tex_v,
    }
}

impl Tile {
    /// Build a tile from its parts.
    pub fn new_rotation(height: u8, model: Model, rotation: TileRotation) -> (t: Tile)
        ensures
            t == (Tile { height, model, rotation }),
    {
        Tile { height, model, rotation }
    }
}

/// Rotation is a cyclic group of order four: stepping a rotation four times
/// returns it unchanged.
pub proof fn lemma_rotation_cycle(r: TileRotation)
    ensures
        rotate_next_spec(rotate_next_spec(rotate_next_spec(rotate_next_spec(r)))) == r,
{
}

/// The quarter-turn vertex transform has order four: applied four times to
/// any vertex whose horizontal coordinates are representable, it returns the
/// vertex exactly (the arithmetic is fixed-point, so there is no tolerance).
pub proof fn lemma_quarter_turn_cycle(v: Vertex)
    requires
        v.pos_x > i64::MIN,
        v.pos_z > i64::MIN,
    ensures
        quarter_turn(quarter_turn(quarter_turn(quarter_turn(v)))) == v,
{
}

/// The model swap ring is cyclic of order four as well.
pub proof fn lemma_swap_model_cycle(m: Model)
    ensures
        swap_model_spec(swap_model_spec(swap_model_spec(swap_model_spec(m)))) == m,
{
}

} // verus!
