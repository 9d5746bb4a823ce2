use gpu_ui::event::{KeyboardModifiers, MouseButton};
use gpu_ui::layout::{grid_cells, grid_cells_bounded};
use gpu_ui::loader::{max_glyph_height, RawGlyph};
use gpu_ui::mesh::{append_mesh, fan_indices, fan_triangles, quad_indices, ring_indices, sequential_indices};
use gpu_ui::render_context::ScissorStack;
use gpu_ui::types::Alignment;

#[test]
fn modifiers_start_empty() {
    let m = KeyboardModifiers::empty();
    assert!(!m.shift());
    assert!(!m.control());
    assert!(!m.alt());
    assert!(!m.super_());
    assert_eq!(m, KeyboardModifiers::default());
}

#[test]
fn modifiers_insert_sets_only_inserted_flags() {
    let mut m = KeyboardModifiers::empty();
    m.insert(KeyboardModifiers::shift_flag());
    assert!(m.shift());
    assert!(!m.control());
    m.insert(KeyboardModifiers::alt_flag());
    assert!(m.shift());
    assert!(m.alt());
    assert!(!m.super_());
    let before = m;
    m.insert(KeyboardModifiers::alt_flag());
    assert_eq!(m, before);
}

#[test]
fn modifiers_remove_clears_only_removed_flags() {
    let mut m = KeyboardModifiers::empty();
    m.insert(KeyboardModifiers::control_flag());
    m.insert(KeyboardModifiers::super_flag());
    m.remove(KeyboardModifiers::control_flag());
    assert!(!m.control());
    assert!(m.super_());
    m.remove(KeyboardModifiers::shift_flag());
    assert!(m.super_());
    m.remove(KeyboardModifiers::super_flag());
    assert_eq!(m, KeyboardModifiers::empty());
}

#[test]
fn mouse_buttons_compare_by_value() {
    assert_eq!(MouseButton::Other(4), MouseButton::Other(4));
    assert_ne!(MouseButton::Other(4), MouseButton::Other(5));
    assert_ne!(MouseButton::Left, MouseButton::Right);
    assert_ne!(Alignment::Start, Alignment::Stretch);
}

#[test]
fn quad_is_two_triangles() {
    assert_eq!(quad_indices(), vec![0, 1, 2, 0, 2, 3]);
}

#[test]
fn sequential_indices_count_up() {
    assert_eq!(sequential_indices(0), Vec::<u32>::new());
    assert_eq!(sequential_indices(5), vec![0, 1, 2, 3, 4]);
}

#[test]
fn fan_wraps_to_first_perimeter_vertex() {
    assert_eq!(fan_indices(4), vec![0, 1, 2, 0, 2, 3, 0, 3, 4, 0, 4, 1]);
    assert_eq!(fan_indices(0), Vec::<u32>::new());
    // The rounded rectangle uses 40 perimeter vertices around its centre.
    let f = fan_indices(40);
    assert_eq!(f.len(), 120);
    assert_eq!(&f[117..], &[0, 40, 1]);
    assert!(f.iter().all(|&i| i <= 40));
}

#[test]
fn ring_closes_back_to_first_pair() {
    assert_eq!(ring_indices(2), vec![0, 1, 2, 2, 1, 3, 2, 3, 0, 0, 3, 1]);
    let r = ring_indices(40);
    assert_eq!(r.len(), 240);
    assert!(r.iter().all(|&i| i < 80));
}

#[test]
fn fan_triangles_share_the_centre() {
    let v = vec!['c', 'a', 'b', 'd'];
    assert_eq!(fan_triangles(&v), vec!['c', 'a', 'b', 'c', 'b', 'd']);
    assert_eq!(fan_triangles(&vec!['c']), Vec::<char>::new());
    assert_eq!(fan_triangles(&vec!['c', 'a']), Vec::<char>::new());
    // A filled sector of 20 segments has 22 vertices and 20 triangles.
    let sector: Vec<u32> = (0..22).collect();
    assert_eq!(fan_triangles(&sector).len(), 60);
}

#[test]
fn append_mesh_moves_indices_past_existing_vertices() {
    let mut verts = vec!['a', 'b', 'c'];
    let mut inds = vec![0, 1, 2];
    append_mesh(&mut verts, &mut inds, vec!['d', 'e', 'f', 'g'], vec![0, 1, 2, 0, 2, 3]);
    assert_eq!(verts, vec!['a', 'b', 'c', 'd', 'e', 'f', 'g']);
    assert_eq!(inds, vec![0, 1, 2, 3, 4, 5, 3, 5, 6]);
    // The appended triangles still draw the same vertices.
    let drawn: Vec<char> = inds[3..].iter().map(|&i| verts[i as usize]).collect();
    assert_eq!(drawn, vec!['d', 'e', 'f', 'd', 'f', 'g']);
}

#[test]
fn grid_fills_row_by_row() {
    assert_eq!(grid_cells(5, 2), vec![(0, 0), (0, 1), (1, 0), (1, 1), (2, 0)]);
    assert_eq!(grid_cells_bounded(5, 2, 2), vec![(0, 0), (0, 1), (1, 0), (1, 1)]);
    assert_eq!(grid_cells_bounded(3, 3, 3), vec![(0, 0), (0, 1), (0, 2)]);
    assert_eq!(grid_cells(0, 3), Vec::<(usize, usize)>::new());
}

fn glyph(id: u32, height: u16) -> RawGlyph {
    RawGlyph { id, width: 8, height, xoffset: 0, yoffset: 0, xadvance: 9, x: 0, y: 0 }
}

#[test]
fn line_height_is_tallest_glyph() {
    assert_eq!(max_glyph_height(&vec![]), 0);
    assert_eq!(max_glyph_height(&vec![glyph(65, 12), glyph(66, 17), glyph(67, 9)]), 17);
}

#[test]
fn scissor_stack_restores_on_pop() {
    let mut s: ScissorStack<(i32, i32)> = ScissorStack::new();
    assert_eq!(s.current_scissor(), None);
    s.push_scissor((1, 1));
    s.push_scissor((2, 2));
    assert_eq!(s.current_scissor(), Some((2, 2)));
    s.pop_scissor();
    assert_eq!(s.current_scissor(), Some((1, 1)));
    s.pop_scissor();
    s.pop_scissor();
    assert_eq!(s.current_scissor(), None);
}
