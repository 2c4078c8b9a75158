use rust_chess::graphics::batches::{Batch, BatchList, DrawCall};
use rust_chess::graphics::drawcall::DrawCallQueue;
use rust_chess::graphics::manager::{DrawingError, GraphicsManager};
use rust_chess::graphics::mesh::{Mesh, MAX_BATCH_SIZE};
use rust_chess::graphics::shaders::Program;
use rust_chess::graphics::sprites::SpriteSheet;
use rust_chess::graphics::Texture;

fn quad() -> Mesh {
    Mesh::new(1, 2, 3, 4, 4, 6)
}

fn call(program: u32, mesh: Mesh, texture: u32, instance: u32) -> DrawCall<u32> {
    DrawCall {
        program: Program::from_id(program),
        mesh,
        texture: Texture::new(texture, 64, 64),
        batch_vbo: 9,
        instance,
    }
}

#[test]
fn one_state_fills_batches_in_order() {
    let mut list = BatchList::new();
    for i in 0..2500u32 {
        list.insert(call(1, quad(), 7, i));
    }
    assert_eq!(list.len(), 3);
    let counts: Vec<usize> = list.iter().iter().map(|b| b.obj_count()).collect();
    assert_eq!(counts, vec![1000, 1000, 500]);
    assert_eq!(counts.iter().sum::<usize>(), 2500);
    assert_eq!(list.iter()[1].instances()[0], 1000);
    assert_eq!(list.iter()[2].instances()[499], 2499);
}

#[test]
fn thousand_calls_fill_exactly_one_batch() {
    let mut list = BatchList::with_capacity(4);
    for i in 0..1000u32 {
        list.insert(call(1, quad(), 7, i));
    }
    assert_eq!(list.len(), 1);
    assert_eq!(list.iter()[0].obj_count(), MAX_BATCH_SIZE);
    list.insert(call(1, quad(), 7, 1000));
    assert_eq!(list.len(), 2);
    assert_eq!(list.iter()[1].obj_count(), 1);
}

#[test]
fn different_states_never_share_a_batch() {
    let other_mesh = Mesh::new(1, 5, 3, 4, 4, 6);
    let mut list = BatchList::new();
    list.insert(call(1, quad(), 7, 0));
    list.insert(call(2, quad(), 7, 1));
    list.insert(call(1, quad(), 8, 2));
    list.insert(call(1, other_mesh, 7, 3));
    list.insert(call(1, quad(), 7, 4));
    assert_eq!(list.len(), 4);
    let b = list.iter();
    assert_eq!(b[0].instances(), &vec![0, 4]);
    assert_eq!(b[1].instances(), &vec![1]);
    assert_eq!(b[1].program(), Program::from_id(2));
    assert_eq!(b[2].instances(), &vec![2]);
    assert_eq!(b[2].texture().id(), 8);
    assert_eq!(b[3].instances(), &vec![3]);
    assert_eq!(b[3].mesh().vao(), 5);
}

#[test]
fn meshes_with_same_buffers_share_a_batch() {
    let same = Mesh::new(40, 2, 3, 41, 4, 6);
    let mut list = BatchList::new();
    list.insert(call(1, quad(), 7, 0));
    list.insert(call(1, same, 7, 1));
    assert_eq!(list.len(), 1);
    assert!(quad() == same);
}

#[test]
fn full_batch_refuses_and_earlier_open_batch_is_reused() {
    let mut batch = Batch::new(call(1, quad(), 7, 0));
    for i in 1..1000u32 {
        assert!(batch.add(call(1, quad(), 7, i)));
    }
    assert!(!batch.add(call(1, quad(), 7, 1000)));
    assert_eq!(batch.obj_count(), 1000);
    assert_eq!(batch.batch_vbo(), 9);
}

#[test]
fn clear_discards_every_batch() {
    let mut list = BatchList::new();
    list.insert(call(1, quad(), 7, 0));
    list.insert(call(2, quad(), 7, 0));
    list.clear();
    assert_eq!(list.len(), 0);
    list.insert(call(1, quad(), 7, 5));
    assert_eq!(list.len(), 1);
    assert_eq!(list.iter()[0].obj_count(), 1);
}

#[test]
fn take_empties_the_list() {
    let mut list = BatchList::new();
    list.insert(call(1, quad(), 7, 0));
    let taken = list.take();
    assert_eq!(taken.len(), 1);
    assert_eq!(list.len(), 0);
}

#[test]
fn queue_sorts_by_program_texture_mesh() {
    let mut q = DrawCallQueue::new();
    q.add(call(2, quad(), 1, 0));
    q.add(call(1, quad(), 9, 1));
    q.add(call(1, quad(), 3, 2));
    q.add(call(1, Mesh::new(1, 1, 2, 4, 4, 6), 3, 3));
    q.add(call(1, quad(), 3, 4));
    let order: Vec<u32> = q.iter().iter().map(|d| d.instance).collect();
    assert_eq!(order, vec![3, 2, 4, 1, 0]);
    q.clear();
    assert_eq!(q.iter().len(), 0);
}

#[test]
fn draw_order_compares_state() {
    let a = call(1, quad(), 3, 0);
    let b = call(1, quad(), 4, 0);
    assert!(a.state_le(&b));
    assert!(!b.state_le(&a));
    assert!(a.state_le(&a));
}

fn manager() -> GraphicsManager<u32> {
    GraphicsManager::new(Program::from_id(3), quad())
}

fn sheet(id: u32) -> SpriteSheet {
    SpriteSheet::new(Texture::new(id, 256, 256), (16, 16), 11)
}

#[test]
fn render_hands_out_batches_and_starts_a_fresh_frame() {
    let mut gm = manager();
    let s = sheet(5).sprite(1, 0);
    gm.clear();
    gm.draw_sprite(&s, 10);
    gm.draw_sprite(&s, 11);
    gm.draw_sprite(&sheet(6).sprite(0, 0), 12);
    let frame = gm.render().unwrap();
    assert_eq!(frame.len(), 2);
    assert_eq!(frame.iter()[0].instances(), &vec![10, 11]);
    assert_eq!(frame.iter()[0].texture().id(), 5);
    assert_eq!(frame.iter()[0].batch_vbo(), 11);
    assert_eq!(frame.iter()[0].program().id(), 3);
    assert_eq!(gm.render().unwrap().len(), 0);
    gm.draw_sprite(&s, 13);
    let next = gm.render().unwrap();
    assert_eq!(next.len(), 1);
    assert_eq!(next.iter()[0].obj_count(), 1);
}

#[test]
fn render_reports_uninitialized_mesh() {
    let mut gm: GraphicsManager<u32> = GraphicsManager::new(Program::from_id(3), Mesh::new(1, 2, 0, 4, 4, 6));
    gm.draw_sprite(&sheet(5).sprite(0, 0), 1);
    assert_eq!(gm.render().err(), Some(DrawingError::MeshEBONotInitialized));
    assert_eq!(gm.render().unwrap().len(), 0);
    let mut gm: GraphicsManager<u32> = GraphicsManager::new(Program::from_id(3), Mesh::new(1, 0, 3, 4, 4, 6));
    gm.draw_sprite(&sheet(5).sprite(0, 0), 1);
    assert_eq!(gm.render().err(), Some(DrawingError::MeshVAONotInitialized));
}

#[test]
fn mesh_check_tests_index_buffer_first() {
    assert_eq!(Mesh::new(1, 0, 0, 4, 4, 6).check(), Err(DrawingError::MeshEBONotInitialized));
    assert_eq!(Mesh::new(1, 0, 3, 4, 4, 6).check(), Err(DrawingError::MeshVAONotInitialized));
    assert_eq!(quad().check(), Ok(()));
    assert_eq!(quad().indices_count(), 6);
    assert_eq!(quad().vertex_count(), 4);
    assert_eq!(quad().ebo(), 3);
    assert_eq!(quad().vbo(), 1);
    assert_eq!(quad().batch_vbo(), 4);
}

#[test]
fn texture_cache_loads_each_path_once() {
    let mut gm = manager();
    let mut decodes = 0;
    let paths = ["sprites/tiles.png", "sprites/pieces.png", "sprites/tiles.png"];
    let mut handles = Vec::new();
    for (i, p) in paths.iter().enumerate() {
        let path = p.to_string();
        let t = match gm.get_texture(&path) {
            Some(t) => t,
            None => {
                decodes += 1;
                let t = Texture::new(100 + i as u32, 32, 16);
                gm.store_texture(path, t);
                t
            }
        };
        handles.push(t);
    }
    assert_eq!(decodes, 2);
    assert_eq!(handles[0], handles[2]);
    assert_ne!(handles[0], handles[1]);
    assert_eq!(gm.get_texture(&"sprites/missing.png".to_string()), None);
    assert_eq!(gm.quad().vao(), 2);
    assert_eq!(gm.program(), Program::from_id(3));
}
