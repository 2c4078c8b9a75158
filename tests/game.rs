use rust_chess::game::{board_tile, PiecesManager, Team};
use rust_chess::graphics::sprites::SpriteSheet;
use rust_chess::graphics::Texture;

#[test]
fn starting_position_has_thirty_two_pieces() {
    let m = PiecesManager::new();
    let pieces = m.pieces();
    assert_eq!(pieces.len(), 32);
    assert_eq!(pieces.iter().filter(|p| p.team == Team::White).count(), 16);
    let king = m.piece_by_pos(4, 0).unwrap();
    assert_eq!((king.id, king.team), (5, Team::White));
    let queen = m.piece_by_pos(3, 7).unwrap();
    assert_eq!((queen.id, queen.team), (4, Team::Black));
    let pawn = m.piece_by_pos(2, 6).unwrap();
    assert_eq!((pawn.id, pawn.team), (0, Team::Black));
    assert!(m.piece_by_pos(4, 4).is_none());
    assert_eq!(pieces[0].position(), (0, 1));
    assert_eq!(pieces[31].position(), (4, 7));
}

#[test]
fn selecting_a_pawn_lists_its_forward_moves() {
    let mut m = PiecesManager::new();
    assert!(m.selected_moves().is_empty());
    m.on_click(0, 1);
    let targets: Vec<(usize, usize)> = m.selected_moves().iter().map(|mv| mv.target_pos()).collect();
    assert_eq!(targets, vec![(0, 2), (0, 3)]);
}

#[test]
fn black_pawn_moves_down_the_board() {
    let mut m = PiecesManager::new();
    m.on_click(5, 6);
    let targets: Vec<(usize, usize)> = m.selected_moves().iter().map(|mv| mv.target_pos()).collect();
    assert_eq!(targets, vec![(5, 5), (5, 4)]);
}

#[test]
fn pieces_other_than_pawns_list_no_moves() {
    let mut m = PiecesManager::new();
    m.on_click(1, 0);
    assert!(m.selected_moves().is_empty());
}

#[test]
fn clicking_a_move_target_keeps_the_selection() {
    let mut m = PiecesManager::new();
    m.on_click(3, 1);
    m.on_click(3, 3);
    let targets: Vec<(usize, usize)> = m.selected_moves().iter().map(|mv| mv.target_pos()).collect();
    assert_eq!(targets, vec![(3, 2), (3, 3)]);
}

#[test]
fn clicking_empty_or_off_board_clears_the_selection() {
    let mut m = PiecesManager::new();
    m.on_click(3, 1);
    m.on_click(5, 5);
    assert!(m.selected_moves().is_empty());
    m.on_click(3, 1);
    m.on_click(8, 0);
    assert!(m.selected_moves().is_empty());
    m.on_click(3, 1);
    m.on_click(usize::MAX, 2);
    assert!(m.selected_moves().is_empty());
}

#[test]
fn piece_sprite_uses_kind_and_team() {
    let sheet = SpriteSheet::new(Texture::new(2, 96, 32), (16, 16), 0);
    let m = PiecesManager::new();
    let knight = m.piece_by_pos(6, 7).unwrap();
    let s = knight.sprite(&sheet);
    assert_eq!(s.position, (1, 1));
    assert_eq!(s.gl_position().x, 16);
    assert_eq!(s.gl_position().y, 16);
    let rook = m.piece_by_pos(0, 0).unwrap();
    assert_eq!(rook.sprite(&sheet).position, (3, 0));
}

#[test]
fn board_tile_under_the_mouse() {
    // 800x600 window, 64 pixels to a unit: the board spans x 144..656.
    assert_eq!(board_tile((144, 556), (800, 600), 64), (0, 0));
    assert_eq!(board_tile((400, 300), (800, 600), 64), (4, 4));
    assert_eq!(board_tile((655, 45), (800, 600), 64), (7, 7));
    assert_eq!(board_tile((10, 300), (800, 600), 64), (-2, 4));
    assert_eq!(board_tile((100, 300), (800, 600), 64), (0, 4));
}
