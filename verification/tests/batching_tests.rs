use gpu_ui::renderer::{
    batch_adjacent, merge_groups, plan_chunks, prepare_frame, scissor_for_draw, scissor_unclamped,
    DrawItem, DrawKey, DrawRange, ScissorKey,
};

fn key(texture_id: u64) -> DrawKey {
    DrawKey { texture_id, scissor: None }
}

fn item(texture_id: u64, vertices: Vec<char>, indices: Vec<u32>) -> DrawItem<char> {
    DrawItem { key: key(texture_id), vertices, indices }
}

fn drawn(vertices: &[char], indices: &[u32]) -> Vec<char> {
    indices.iter().map(|&i| vertices[i as usize]).collect()
}

#[test]
fn adjacent_commands_with_same_key_merge() {
    let groups = batch_adjacent(vec![
        item(1, vec!['a', 'b', 'c'], vec![0, 1, 2]),
        item(1, vec!['d', 'e', 'f'], vec![2, 1, 0]),
        item(2, vec!['g', 'h', 'i'], vec![0, 1, 2]),
        item(1, vec!['j', 'k', 'l'], vec![0, 2, 1]),
    ]);
    assert_eq!(groups.len(), 3);
    assert_eq!(groups[0].key, key(1));
    assert_eq!(groups[0].vertices, vec!['a', 'b', 'c', 'd', 'e', 'f']);
    assert_eq!(groups[0].indices, vec![0, 1, 2, 5, 4, 3]);
    assert_eq!(groups[1].key, key(2));
    assert_eq!(groups[2].key, key(1));
    assert_eq!(groups[2].indices, vec![0, 2, 1]);
    assert_eq!(drawn(&groups[0].vertices, &groups[0].indices), vec!['a', 'b', 'c', 'f', 'e', 'd']);
}

#[test]
fn different_scissors_do_not_merge() {
    let clipped = DrawKey { texture_id: 1, scissor: Some(ScissorKey { x: 0, y: 0, w: 10, h: 10 }) };
    let groups = batch_adjacent(vec![
        item(1, vec!['a'], vec![0]),
        DrawItem { key: clipped, vertices: vec!['b'], indices: vec![0] },
    ]);
    assert_eq!(groups.len(), 2);
    assert_eq!(groups[1].key, clipped);
}

#[test]
fn empty_frame_gives_nothing() {
    assert!(batch_adjacent(Vec::<DrawItem<char>>::new()).is_empty());
    assert!(prepare_frame(Vec::<DrawItem<char>>::new()).is_empty());
}

#[test]
fn chunks_split_at_the_vertex_limit() {
    let groups = vec![
        item(1, vec!['a', 'b'], vec![0, 1]),
        item(2, vec!['c', 'd'], vec![1, 0]),
        item(3, vec!['e', 'f'], vec![0, 0, 1]),
    ];
    let chunks = plan_chunks(groups, 4, 100);
    assert_eq!(chunks.len(), 2);
    assert_eq!(chunks[0].vertices, vec!['a', 'b', 'c', 'd']);
    assert_eq!(chunks[0].indices, vec![0, 1, 3, 2]);
    assert_eq!(
        chunks[0].draws,
        vec![
            DrawRange { key: key(1), index_start: 0, index_count: 2 },
            DrawRange { key: key(2), index_start: 2, index_count: 2 },
        ]
    );
    assert_eq!(chunks[1].vertices, vec!['e', 'f']);
    assert_eq!(chunks[1].indices, vec![0, 0, 1]);
    assert_eq!(chunks[1].draws, vec![DrawRange { key: key(3), index_start: 0, index_count: 3 }]);
}

#[test]
fn chunks_split_at_the_index_limit() {
    let groups = vec![
        item(1, vec!['a'], vec![0, 0, 0]),
        item(2, vec!['b'], vec![0, 0, 0]),
    ];
    let chunks = plan_chunks(groups, 100, 5);
    assert_eq!(chunks.len(), 2);
    assert_eq!(chunks[1].indices, vec![0, 0, 0]);
}

#[test]
fn oversized_group_gets_a_chunk_of_its_own() {
    let groups = vec![
        item(1, vec!['a'], vec![0]),
        item(2, vec!['b', 'c', 'd'], vec![0, 1, 2]),
        item(3, vec!['e'], vec![0]),
    ];
    let chunks = plan_chunks(groups, 2, 100);
    assert_eq!(chunks.len(), 3);
    assert_eq!(chunks[1].vertices, vec!['b', 'c', 'd']);
    assert_eq!(chunks[1].draws.len(), 1);
}

#[test]
fn chunk_without_vertices_is_not_sent() {
    let groups = vec![item(1, vec![], vec![]), item(2, vec!['a', 'b', 'c'], vec![0, 1, 2])];
    let chunks = plan_chunks(groups, 2, 100);
    assert_eq!(chunks.len(), 1);
    assert_eq!(chunks[0].vertices, vec!['a', 'b', 'c']);
    let only_empty = plan_chunks(vec![item(1, vec![], vec![])], 2, 100);
    assert!(only_empty.is_empty());
}

#[test]
fn merging_all_groups_keeps_order() {
    let c = merge_groups(vec![item(1, vec!['a', 'b'], vec![1, 0]), item(2, vec!['c'], vec![0])]);
    assert_eq!(c.vertices, vec!['a', 'b', 'c']);
    assert_eq!(c.indices, vec![1, 0, 2]);
    assert_eq!(
        c.draws,
        vec![
            DrawRange { key: key(1), index_start: 0, index_count: 2 },
            DrawRange { key: key(2), index_start: 2, index_count: 1 },
        ]
    );
}

#[test]
fn frame_draws_what_the_commands_draw() {
    let items = vec![
        item(1, vec!['a', 'b', 'c'], vec![0, 1, 2]),
        item(1, vec!['d', 'e', 'f'], vec![0, 2, 1]),
        item(7, vec!['g', 'h', 'i'], vec![2, 1, 0]),
    ];
    let expected: Vec<char> = items.iter().flat_map(|it| drawn(&it.vertices, &it.indices)).collect();
    let chunks = prepare_frame(items);
    let mut got = Vec::new();
    for c in &chunks {
        for d in &c.draws {
            let s = d.index_start as usize;
            let e = s + d.index_count as usize;
            got.extend(drawn(&c.vertices, &c.indices[s..e]));
        }
    }
    assert_eq!(got, expected);
    assert_eq!(chunks.len(), 1);
    assert_eq!(chunks[0].draws.len(), 2);
}

#[test]
fn scissor_is_clamped_to_the_surface() {
    assert_eq!(scissor_for_draw(None, 800, 600), Some(ScissorKey { x: 0, y: 0, w: 800, h: 600 }));
    assert_eq!(
        scissor_for_draw(Some(ScissorKey { x: 700, y: 500, w: 300, h: 50 }), 800, 600),
        Some(ScissorKey { x: 700, y: 500, w: 100, h: 50 })
    );
    assert_eq!(scissor_for_draw(Some(ScissorKey { x: 900, y: 10, w: 30, h: 30 }), 800, 600), None);
    assert_eq!(scissor_for_draw(Some(ScissorKey { x: 10, y: 10, w: 0, h: 30 }), 800, 600), None);
}

#[test]
fn unclamped_scissor_only_skips_empty_rectangles() {
    let big = ScissorKey { x: 900, y: 10, w: 30, h: 30 };
    assert_eq!(scissor_unclamped(Some(big), 800, 600), Some(big));
    assert_eq!(scissor_unclamped(Some(ScissorKey { x: 0, y: 0, w: 5, h: 0 }), 800, 600), None);
    assert_eq!(scissor_unclamped(None, 3, 4), Some(ScissorKey { x: 0, y: 0, w: 3, h: 4 }));
}

#[test]
fn batching_twice_changes_nothing() {
    let once = batch_adjacent(vec![
        item(1, vec!['a', 'b'], vec![0, 1]),
        item(1, vec!['c'], vec![0]),
        item(2, vec!['d'], vec![0]),
        item(2, vec!['e'], vec![0]),
        item(1, vec!['f'], vec![0]),
    ]);
    let keys: Vec<DrawKey> = once.iter().map(|g| g.key).collect();
    let verts: Vec<Vec<char>> = once.iter().map(|g| g.vertices.clone()).collect();
    let inds: Vec<Vec<u32>> = once.iter().map(|g| g.indices.clone()).collect();
    let twice = batch_adjacent(once);
    assert_eq!(twice.iter().map(|g| g.key).collect::<Vec<_>>(), keys);
    assert_eq!(twice.iter().map(|g| g.vertices.clone()).collect::<Vec<_>>(), verts);
    assert_eq!(twice.iter().map(|g| g.indices.clone()).collect::<Vec<_>>(), inds);
    assert_eq!(inds, vec![vec![0, 1, 2], vec![0, 1], vec![0]]);
}
