//! Behaviour of the sprite batcher: texture grouping, index rebasing, and
//! per-frame draining.

use line_monsters::spritebatch::Spritebatch;
use line_monsters::vertex::TextureHandle;

fn tex(id: u64) -> TextureHandle {
    TextureHandle {
        id,
        width: 256,
        height: 256,
    }
}

#[test]
fn same_texture_pushes_merge_into_one_batch() {
    let mut sb: Spritebatch<u64> = Spritebatch::new();
    sb.push(&[10, 20], &[0, 1, 0], tex(7));
    sb.push(&[30], &[0], tex(7));
    let out = sb.get_buffer();
    assert_eq!(out.len(), 1);
    assert_eq!(out[0].texture.id, 7);
    assert_eq!(out[0].vertices, vec![10, 20, 30]);
    assert_eq!(out[0].indices, vec![0, 1, 0, 2]);
}

#[test]
fn index_rebasing_uses_vertex_count_before_each_push() {
    let mut sb: Spritebatch<u32> = Spritebatch::new();
    let verts_a = [1u32, 2, 3, 4];
    let idx_a = [0u16, 1, 3, 1, 2, 3];
    let verts_b = [5u32, 6, 7];
    let idx_b = [2u16, 0, 1];
    sb.push(&verts_a, &idx_a, tex(1));
    sb.push(&verts_b, &idx_b, tex(1));
    let out = sb.get_buffer();
    assert_eq!(out.len(), 1);
    assert_eq!(out[0].vertices, vec![1, 2, 3, 4, 5, 6, 7]);
    assert_eq!(out[0].indices, vec![0, 1, 3, 1, 2, 3, 6, 4, 5]);
}

#[test]
fn texture_change_finishes_the_open_batch() {
    let mut sb: Spritebatch<u64> = Spritebatch::new();
    sb.push(&[1], &[0], tex(1));
    sb.push(&[2], &[0], tex(2));
    sb.push(&[3], &[0], tex(2));
    let out = sb.get_buffer();
    assert_eq!(out.len(), 2);
    assert_eq!(out[0].texture.id, 1);
    assert_eq!(out[0].vertices, vec![1]);
    assert_eq!(out[1].texture.id, 2);
    assert_eq!(out[1].vertices, vec![2, 3]);
    assert_eq!(out[1].indices, vec![0, 1]);
}

#[test]
fn batches_come_out_in_submission_order() {
    let mut sb: Spritebatch<u8> = Spritebatch::new();
    sb.push(&[1], &[0], tex(5));
    sb.push(&[2], &[0], tex(9));
    sb.push(&[3], &[0], tex(5));
    let out = sb.get_buffer();
    let ids: Vec<u64> = out.iter().map(|b| b.texture.id).collect();
    assert_eq!(ids, vec![5, 9, 5]);
}

#[test]
fn empty_batcher_drains_nothing() {
    let mut sb: Spritebatch<u64> = Spritebatch::new();
    let out = sb.get_buffer();
    assert_eq!(out.len(), 0);
}

#[test]
fn flush_with_no_open_batch_is_a_no_op() {
    let mut sb: Spritebatch<u64> = Spritebatch::new();
    sb.flush_to_buffer(Some(tex(3)));
    let out = sb.get_buffer();
    assert_eq!(out.len(), 0);
}

#[test]
fn drain_leaves_the_accumulator_empty() {
    let mut sb: Spritebatch<u64> = Spritebatch::new();
    sb.push(&[1, 2], &[0, 1], tex(4));
    let first = sb.get_buffer();
    assert_eq!(first.len(), 1);
    let second = sb.get_buffer();
    assert_eq!(second.len(), 0);
}

#[test]
fn batch_keeps_the_handle_that_opened_it() {
    let mut sb: Spritebatch<u64> = Spritebatch::new();
    let first = TextureHandle {
        id: 6,
        width: 64,
        height: 64,
    };
    let same_id_other_size = TextureHandle {
        id: 6,
        width: 128,
        height: 128,
    };
    sb.push(&[1], &[0], first);
    sb.push(&[2], &[0], same_id_other_size);
    let out = sb.get_buffer();
    assert_eq!(out.len(), 1);
    assert_eq!(out[0].texture.width, 64);
}
