use gpu_ui::frame::{batch_adjacent_checked, merge_frame_checked, merge_groups_checked, plan_chunks_checked, prepare_frame_checked};
use gpu_ui::renderer::{DrawItem, DrawKey, DrawRange};
use gpu_ui::texture_manager::TextureRegistry;

fn item(texture_id: u64, vertices: Vec<char>, indices: Vec<u32>) -> DrawItem<char> {
    DrawItem { key: DrawKey { texture_id, scissor: None }, vertices, indices }
}

#[test]
fn index_past_own_vertices_is_still_drawn() {
    let chunks = prepare_frame_checked(vec![item(1, vec![], vec![0])]).expect("fits in u32");
    assert!(chunks.is_empty());
    let items = vec![item(1, vec!['a', 'b', 'c'], vec![0, 1, 2]), item(1, vec!['d'], vec![0, 1])];
    let chunks = prepare_frame_checked(items).expect("fits in u32");
    assert_eq!(chunks.len(), 1);
    assert_eq!(chunks[0].indices, vec![0, 1, 2, 3, 4]);
    let merged = merge_frame_checked(vec![item(1, vec![], vec![0])]).expect("fits in u32");
    assert!(merged.vertices.is_empty());
    assert_eq!(merged.indices, vec![0]);
}

#[test]
fn moved_index_past_u32_is_refused() {
    let items = vec![item(1, vec!['a'], vec![0]), item(1, vec!['b'], vec![u32::MAX])];
    assert!(batch_adjacent_checked(items).is_none());
    let items = vec![item(1, vec!['a'], vec![0]), item(1, vec!['b'], vec![u32::MAX])];
    assert!(prepare_frame_checked(items).is_none());
    let items = vec![item(1, vec!['a'], vec![0]), item(1, vec!['b'], vec![u32::MAX])];
    assert!(merge_frame_checked(items).is_none());
    let groups = vec![item(1, vec!['a'], vec![0]), item(2, vec!['b'], vec![u32::MAX])];
    assert!(plan_chunks_checked(groups, 100, 100).is_none());
    let groups = vec![item(1, vec!['a'], vec![0]), item(2, vec!['b'], vec![u32::MAX])];
    assert!(merge_groups_checked(groups).is_none());
    let groups = vec![item(1, vec!['a'], vec![0]), item(2, vec!['b'], vec![u32::MAX])];
    assert_eq!(plan_chunks_checked(groups, 1, 100).map(|c| c.len()), Some(2));
}

#[test]
fn one_chunk_frame_matches_single_buffer() {
    let make = || {
        vec![
            item(1, vec!['a', 'b'], vec![0, 1]),
            item(1, vec!['c'], vec![0]),
            item(2, vec!['d', 'e'], vec![1, 0]),
        ]
    };
    let chunks = prepare_frame_checked(make()).expect("fits");
    let merged = merge_frame_checked(make()).expect("fits");
    assert_eq!(chunks.len(), 1);
    assert_eq!(chunks[0].vertices, merged.vertices);
    assert_eq!(chunks[0].indices, merged.indices);
    assert_eq!(chunks[0].draws, merged.draws);
}

#[test]
fn checked_frame_batches_and_chunks() {
    let items = vec![
        item(1, vec!['a', 'b', 'c'], vec![0, 1, 2]),
        item(1, vec!['d', 'e', 'f'], vec![2, 1, 0]),
        item(2, vec!['g', 'h', 'i'], vec![0, 1, 2]),
    ];
    let chunks = prepare_frame_checked(items).expect("bounded frame");
    assert_eq!(chunks.len(), 1);
    assert_eq!(chunks[0].vertices, vec!['a', 'b', 'c', 'd', 'e', 'f', 'g', 'h', 'i']);
    assert_eq!(chunks[0].indices, vec![0, 1, 2, 5, 4, 3, 6, 7, 8]);
    assert_eq!(
        chunks[0].draws,
        vec![
            DrawRange { key: DrawKey { texture_id: 1, scissor: None }, index_start: 0, index_count: 6 },
            DrawRange { key: DrawKey { texture_id: 2, scissor: None }, index_start: 6, index_count: 3 },
        ]
    );
}

#[test]
fn checked_merge_puts_groups_in_one_buffer() {
    let items = vec![
        item(3, vec!['a', 'b'], vec![1, 0]),
        item(4, vec!['c'], vec![0]),
        item(4, vec!['d'], vec![0]),
    ];
    let chunk = merge_frame_checked(items).expect("bounded frame");
    assert_eq!(chunk.vertices, vec!['a', 'b', 'c', 'd']);
    assert_eq!(chunk.indices, vec![1, 0, 2, 3]);
    assert_eq!(chunk.draws.len(), 2);
    assert_eq!(chunk.draws[1].index_start, 2);
    assert_eq!(chunk.draws[1].index_count, 2);
}

#[test]
fn registry_reports_next_id() {
    let mut reg = TextureRegistry::new();
    assert_eq!(reg.next_id(), 1);
    let id = reg.register("a", 2, 2);
    assert_eq!(id, 1);
    assert_eq!(reg.next_id(), 2);
}
