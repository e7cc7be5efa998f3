//! The static geometry catalog: for each model, a vertex and an index table
//! in object-local space. Tables are given in fixed-point subunits
//! (`COORD_SCALE` per unit) in a unit cube whose origin sits at its centre,
//! so every local coordinate lies in [-500, 500].

use vstd::prelude::*;

use crate::tile::Model;
use crate::vertex::Vertex;

verus! {

/// A local model vertex: every coordinate within the unit cube.
pub open spec fn vert_local(v: Vertex) -> bool {
    &&& -500 <= v.pos_x <= 500
    &&& -500 <= v.pos_y <= 500
    &&& -500 <= v.pos_z <= 500
}

pub open spec fn wall_verts() -> Seq<Vertex> {
    seq![
        Vertex { pos_x: -500i64, pos_y: 500i64, pos_z: -500i64, tex_u: 0i64, tex_v: 0i64 },
        Vertex { pos_x: -500i64, pos_y: 375i64, pos_z: -250i64, tex_u: 0i64, tex_v: 125i64 },
        Vertex { pos_x: -500i64, pos_y: -375i64, pos_z: 250i64, tex_u: 0i64, tex_v: 875i64 },
        Vertex { pos_x: -500i64, pos_y: -500i64, pos_z: 500i64, tex_u: 0i64, tex_v: 1000i64 },
        Vertex { pos_x: 500i64, pos_y: 500i64, pos_z: -500i64, tex_u: 1000i64, tex_v: 0i64 },
        Vertex { pos_x: 500i64, pos_y: 375i64, pos_z: -250i64, tex_u: 1000i64, tex_v: 125i64 },
        Vertex { pos_x: 500i64, pos_y: -375i64, pos_z: 250i64, tex_u: 1000i64, tex_v: 875i64 },
        Vertex { pos_x: 500i64, pos_y: -500i64, pos_z: 500i64, tex_u: 1000i64, tex_v: 1000i64 },
    ]
}

pub open spec fn wall_indices() -> Seq<u16> {
    seq![0u16, 1, 4, 4, 1, 5, 1, 2, 5, 5, 2, 6, 2, 3, 6, 6, 3, 7]
}

pub open spec fn floor_verts() -> Seq<Vertex> {
    seq![
        Vertex { pos_x: -500i64, pos_y: -500i64, pos_z: -500i64, tex_u: 0i64, tex_v: 0i64 },
        Vertex { pos_x: -500i64, pos_y: -500i64, pos_z: 500i64, tex_u: 0i64, tex_v: 1000i64 },
        Vertex { pos_x: 500i64, pos_y: -500i64, pos_z: -500i64, tex_u: 1000i64, tex_v: 0i64 },
        Vertex { pos_x: 500i64, pos_y: -500i64, pos_z: 500i64, tex_u: 1000i64, tex_v: 1000i64 },
    ]
}

pub open spec fn floor_indices() -> Seq<u16> {
    seq![0u16, 1, 2, 2, 1, 3]
}

pub open spec fn corner_verts() -> Seq<Vertex> {
    seq![
        Vertex { pos_x: -500i64, pos_y: 500i64, pos_z: -500i64, tex_u: 500i64, tex_v: 0i64 },
        Vertex { pos_x: -500i64, pos_y: 375i64, pos_z: -250i64, tex_u: 375i64, tex_v: 125i64 },
        Vertex { pos_x: -500i64, pos_y: -375i64, pos_z: 250i64, tex_u: 125i64, tex_v: 875i64 },
        Vertex { pos_x: -500i64, pos_y: -500i64, pos_z: 500i64, tex_u: 0i64, tex_v: 1000i64 },
        Vertex { pos_x: -250i64, pos_y: 375i64, pos_z: -500i64, tex_u: 625i64, tex_v: 125i64 },
        Vertex { pos_x: 250i64, pos_y: -375i64, pos_z: -500i64, tex_u: 875i64, tex_v: 875i64 },
        Vertex { pos_x: 500i64, pos_y: -500i64, pos_z: -500i64, tex_u: 1000i64, tex_v: 1000i64 },
        Vertex { pos_x: 0i64, pos_y: -375i64, pos_z: 125i64, tex_u: 400i64, tex_v: 875i64 },
        Vertex { pos_x: 125i64, pos_y: -375i64, pos_z: 0i64, tex_u: 600i64, tex_v: 875i64 },
        Vertex { pos_x: 0i64, pos_y: -500i64, pos_z: 375i64, tex_u: 350i64, tex_v: 1000i64 },
        Vertex { pos_x: 375i64, pos_y: -500i64, pos_z: 0i64, tex_u: 650i64, tex_v: 1000i64 },
    ]
}

pub open spec fn corner_indices() -> Seq<u16> {
    seq![
        0u16, 1, 4, 1, 2, 7, 4, 8, 5, 1, 7, 4, 4, 7, 8, 2, 3, 7, 7, 3, 9, 7, 9, 8, 8, 9, 10,
        8, 10, 5, 5, 10, 6,
    ]
}

/// The inner corner is the corner mirrored through the vertical plane that
/// negates local x (texture u mirrored to match), with each triangle's
/// winding reversed so the faces keep pointing outward.
pub open spec fn inner_corner_verts() -> Seq<Vertex> {
    seq![
        Vertex { pos_x: 500i64, pos_y: 500i64, pos_z: -500i64, tex_u: 500i64, tex_v: 0i64 },
        Vertex { pos_x: 500i64, pos_y: 375i64, pos_z: -250i64, tex_u: 625i64, tex_v: 125i64 },
        Vertex { pos_x: 500i64, pos_y: -375i64, pos_z: 250i64, tex_u: 875i64, tex_v: 875i64 },
        Vertex { pos_x: 500i64, pos_y: -500i64, pos_z: 500i64, tex_u: 1000i64, tex_v: 1000i64 },
        Vertex { pos_x: 250i64, pos_y: 375i64, pos_z: -500i64, tex_u: 375i64, tex_v: 125i64 },
        Vertex { pos_x: -250i64, pos_y: -375i64, pos_z: -500i64, tex_u: 125i64, tex_v: 875i64 },
        Vertex { pos_x: -500i64, pos_y: -500i64, pos_z: -500i64, tex_u: 0i64, tex_v: 1000i64 },
        Vertex { pos_x: 0i64, pos_y: -375i64, pos_z: 125i64, tex_u: 600i64, tex_v: 875i64 },
        Vertex { pos_x: -125i64, pos_y: -375i64, pos_z: 0i64, tex_u: 400i64, tex_v: 875i64 },
        Vertex { pos_x: 0i64, pos_y: -500i64, pos_z: 375i64, tex_u: 650i64, tex_v: 1000i64 },
        Vertex { pos_x: -375i64, pos_y: -500i64, pos_z: 0i64, tex_u: 350i64, tex_v: 1000i64 },
    ]
}

pub open spec fn inner_corner_indices() -> Seq<u16> {
    seq![
        0u16, 4, 1, 1, 7, 2, 4, 5, 8, 1, 4, 7, 4, 8, 7, 2, 7, 3, 7, 9, 3, 7, 8, 9, 8, 10, 9,
        8, 5, 10, 5, 6, 10,
    ]
}

/// The vertex table of a model.
pub open spec fn model_verts(m: Model) -> Seq<Vertex> {
    match m {
        Model::Wall => wall_verts(),
        Model::Floor => floor_verts(),
        Model::Corner => corner_verts(),
        Model::InnerCorner => inner_corner_verts(),
    }
}

/// The index table of a model; indices refer into its own vertex table.
pub open spec fn model_indices(m: Model) -> Seq<u16> {
    match m {
        Model::Wall => wall_indices(),
        Model::Floor => floor_indices(),
        Model::Corner => corner_indices(),
        Model::InnerCorner => inner_corner_indices(),
    }
}

/// How many vertices a model contributes to a batch.
pub open spec fn model_vert_count(m: Model) -> int {
    model_verts(m).len() as int
}

/// Every model's tables are small, its indices point into its own vertex
/// table, and every vertex lies in the local unit cube.
pub proof fn lemma_model_tables(m: Model)
    ensures
        model_verts(m).len() <= 11,
        model_verts(m).len() >= 1,
        forall|k: int|
            0 <= k < model_indices(m).len() ==> (model_indices(m)[k] as int) < model_verts(
                m,
            ).len(),
        forall|k: int| 0 <= k < model_verts(m).len() ==> vert_local(#[trigger] model_verts(m)[k]),
{
    match m {
        Model::Wall => {
            assert(forall|k: int|
                0 <= k < wall_indices().len() ==> (wall_indices()[k] as int) < wall_verts().len());
            assert(forall|k: int|
                0 <= k < wall_verts().len() ==> vert_local(#[trigger] wall_verts()[k]));
        },
        Model::Floor => {
            assert(forall|k: int|
                0 <= k < floor_indices().len() ==> (floor_indices()[k] as int) < floor_verts().len());
            assert(forall|k: int|
                0 <= k < floor_verts().len() ==> vert_local(#[trigger] floor_verts()[k]));
        },
        Model::Corner => {
            assert(forall|k: int|
                0 <= k < corner_indices().len() ==> (corner_indices()[k] as int) < corner_verts().len());
            assert(forall|k: int|
                0 <= k < corner_verts().len() ==> vert_local(#[trigger] corner_verts()[k]));
        },
        Model::InnerCorner => {
            assert(forall|k: int|
                0 <= k < inner_corner_indices().len() ==> (inner_corner_indices()[k] as int)
                    < inner_corner_verts().len());
            assert(forall|k: int|
                0 <= k < inner_corner_verts().len() ==> vert_local(
                    #[trigger] inner_corner_verts()[k],
                ));
        },
    }
}

/// Build one vertex value.
fn vtx(pos_x: i64, pos_y: i64, pos_z: i64, tex_u: i64, tex_v: i64) -> (v: Vertex)
    ensures
        v == (Vertex { pos_x, pos_y, pos_z, tex_u, tex_v }),
{
    Vertex { pos_x, pos_y, pos_z, tex_u, tex_v }
}

/// Copy an index table into a vector.
fn push_indices(idx: &mut Vec<u16>, table: &[u16])
    ensures
        final(idx)@ == old(idx)@ + table@,
{
    let mut k: usize = 0;
    while k < table.len()
        invariant
            0 <= k <= table@.len(),
            idx@ == old(idx)@ + table@.take(k as int),
        decreases table@.len() - k,
    {
        idx.push(table[k]);
        assert(table@.take(k as int).push(table@[k as int]) =~= table@.take(k + 1 as int));
        k += 1;
    }
    assert(table@.take(table@.len() as int) =~= table@);
}

impl Model {
    /// The (vertices, indices) geometry pair of this model.
    pub fn get_model(&self) -> (r: (Vec<Vertex>, Vec<u16>))
        ensures
            r.0@ == model_verts(*self),
            r.1@ == model_indices(*self),
    {
        let mut verts: Vec<Vertex> = Vec::new();
        let mut idx: Vec<u16> = Vec::new();
        match *self {
            Model::Wall => {
                verts.push(vtx(-500, 500, -500, 0, 0));
                verts.push(vtx(-500, 375, -250, 0, 125));
                verts.push(vtx(-500, -375, 250, 0, 875));
                verts.push(vtx(-500, -500, 500, 0, 1000));
                verts.push(vtx(500, 500, -500, 1000, 0));
                verts.push(vtx(500, 375, -250, 1000, 125));
                verts.push(vtx(500, -375, 250, 1000, 875));
                verts.push(vtx(500, -500, 500, 1000, 1000));
                let table: [u16; 18] = [0, 1, 4, 4, 1, 5, 1, 2, 5, 5, 2, 6, 2, 3, 6, 6, 3, 7];
                push_indices(&mut idx, table.as_slice());
                assert(verts@ =~= wall_verts());
                assert(idx@ =~= wall_indices());
            },
            Model::Floor => {
                verts.push(vtx(-500, -500, -500, 0, 0));
                verts.push(vtx(-500, -500, 500, 0, 1000));
                verts.push(vtx(500, -500, -500, 1000, 0));
                verts.push(vtx(500, -500, 500, 1000, 1000));
                let table: [u16; 6] = [0, 1, 2, 2, 1, 3];
                push_indices(&mut idx, table.as_slice());
                assert(verts@ =~= floor_verts());
                assert(idx@ =~= floor_indices());
            },
            Model::Corner => {
                verts.push(vtx(-500, 500, -500, 500, 0));
                verts.push(vtx(-500, 375, -250, 375, 125));
                verts.push(vtx(-500, -375, 250, 125, 875));
                verts.push(vtx(-500, -500, 500, 0, 1000));
                verts.push(vtx(-250, 375, -500, 625, 125));
                verts.push(vtx(250, -375, -500, 875, 875));
                verts.push(vtx(500, -500, -500, 1000, 1000));
                verts.push(vtx(0, -375, 125, 400, 875));
                verts.push(vtx(125, -375, 0, 600, 875));
                verts.push(vtx(0, -500, 375, 350, 1000));
                verts.push(vtx(375, -500, 0, 650, 1000));
                let table: [u16; 33] = [
                    0, 1, 4, 1, 2, 7, 4, 8, 5, 1, 7, 4, 4, 7, 8, 2, 3, 7, 7, 3, 9, 7, 9, 8, 8, 9,
                    10, 8, 10, 5, 5, 10, 6,
                ];
                push_indices(&mut idx, table.as_slice());
                assert(verts@ =~= corner_verts());
                assert(idx@ =~= corner_indices());
            },
            Model::InnerCorner => {
                verts.push(vtx(500, 500, -500, 500, 0));
                verts.push(vtx(500, 375, -250, 625, 125));
                verts.push(vtx(500, -375, 250, 875, 875));
                verts.push(vtx(500, -500, 500, 1000, 1000));
                verts.push(vtx(250, 375, -500, 375, 125));
                verts.push(vtx(-250, -375, -500, 125, 875));
                verts.push(vtx(-500, -500, -500, 0, 1000));
                verts.push(vtx(0, -375, 125, 600, 875));
                verts.push(vtx(-125, -375, 0, 400, 875));
                verts.push(vtx(0, -500, 375, 650, 1000));
                verts.push(vtx(-375, -500, 0, 350, 1000));
                let table: [u16; 33] = [
                    0, 4, 1, 1, 7, 2, 4, 5, 8, 1, 4, 7, 4, 8, 7, 2, 7, 3, 7, 9, 3, 7, 8, 9, 8, 10,
                    9, 8, 5, 10, 5, 6, 10,
                ];
                push_indices(&mut idx, table.as_slice());
                assert(verts@ =~= inner_corner_verts());
                assert(idx@ =~= inner_corner_indices());
            },
        }
        (verts, idx)
    }
}

} // verus!
