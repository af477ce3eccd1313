use uhn::piece::Name;
use uhn::pos::Pos;
use uhn::{Piece, PieceMap, PieceName};

fn map_of(bits: &[u16]) -> PieceMap {
    let mut map = PieceMap::new();
    for &bit in bits {
        map.set_bit(bit, true);
    }
    map
}

fn bits_of(map: &PieceMap) -> Vec<u16> {
    let mut bits = Vec::new();
    for bit in 0..16u16 {
        if map.get_bit(bit) {
            bits.push(bit);
        }
    }
    bits
}

#[test]
fn packed_new_is_empty() {
    assert_eq!(bits_of(&PieceMap::new()), vec![]);
}

#[test]
fn packed_pos_bit_is_row_major() {
    let map = PieceMap::new();
    assert_eq!(map.pos_bit(0, 0), 0);
    assert_eq!(map.pos_bit(3, 0), 3);
    assert_eq!(map.pos_bit(0, 1), 4);
    assert_eq!(map.pos_bit(2, 3), 14);
    assert_eq!(map.pos_bit(3, 3), 15);
}

#[test]
fn packed_set_bit_sets_and_clears() {
    let mut map = PieceMap::new();
    map.set_bit(0, true);
    map.set_bit(15, true);
    map.set_bit(6, true);
    assert_eq!(bits_of(&map), vec![0, 6, 15]);
    map.set_bit(6, false);
    map.set_bit(7, false);
    assert_eq!(bits_of(&map), vec![0, 15]);
}

#[test]
fn packed_set_map_replaces_the_word() {
    let mut map = map_of(&[0, 1, 2]);
    map.set_map(0x0066);
    assert_eq!(bits_of(&map), vec![1, 2, 5, 6]);
    map.set_map(0x8001);
    assert_eq!(bits_of(&map), vec![0, 15]);
}

#[test]
fn packed_ccw_moves_each_cell_a_quarter_turn() {
    let map = map_of(&[0, 1, 11]);
    assert_eq!(bits_of(&map.ccw()), vec![2, 8, 12]);
}

#[test]
fn packed_ccw_four_times_is_identity() {
    for word in [0u16, 1, 0x0066, 0x00f0, 0x8421, 0xffff, 0x1234] {
        let mut map = PieceMap::new();
        map.set_map(word);
        let back = map.ccw().ccw().ccw().ccw();
        assert_eq!(bits_of(&back), bits_of(&map));
    }
}

#[test]
fn packed_trans_shifts_and_drops() {
    let map = map_of(&[0, 15, 9]);
    assert_eq!(bits_of(&map.trans([-1, -1])), vec![4, 10]);
    assert_eq!(bits_of(&map.trans([1, 0])), vec![1, 10]);
    assert_eq!(bits_of(&map.trans([0, 0])), vec![0, 9, 15]);
    assert_eq!(bits_of(&map.trans([4, 0])), vec![]);
    assert_eq!(bits_of(&map.trans([i16::MIN, 0])), vec![]);
    assert_eq!(bits_of(&map.trans([0, i16::MAX])), vec![]);
}

#[test]
fn packed_draw_uses_narrow_glyphs() {
    let map = map_of(&[1, 2, 5, 6]);
    assert_eq!(map.draw(), "--[][]--\n--[][]--\n--------\n--------\n");
    assert_eq!(PieceMap::new().draw(), "--------\n--------\n--------\n--------\n");
}

#[test]
fn packed_all_lists_the_seven_shapes_in_order() {
    let names: Vec<String> = PieceName::all().iter().map(|n| format!("{:?}", n)).collect();
    assert_eq!(names, vec!["O", "S", "Z", "J", "L", "T", "I"]);
}

#[test]
fn packed_orientation_counts() {
    assert_eq!(PieceName::O.to_piece().len(), 1);
    assert_eq!(PieceName::S.to_piece().len(), 2);
    assert_eq!(PieceName::Z.to_piece().len(), 2);
    assert_eq!(PieceName::I.to_piece().len(), 2);
    assert_eq!(PieceName::J.to_piece().len(), 4);
    assert_eq!(PieceName::L.to_piece().len(), 4);
    assert_eq!(PieceName::T.to_piece().len(), 4);
}

#[test]
fn packed_i_shape_states() {
    let mut piece = PieceName::I.to_piece();
    assert_eq!(bits_of(piece.get_map()), vec![4, 5, 6, 7]);
    assert_eq!(piece.draw(), "--------\n[][][][]\n--------\n--------\n");
    piece.rot(true);
    assert_eq!(bits_of(piece.get_map()), vec![2, 6, 10, 14]);
    assert_eq!(piece.draw(), "----[]--\n----[]--\n----[]--\n----[]--\n");
    piece.rot(false);
    assert_eq!(bits_of(piece.get_map()), vec![4, 5, 6, 7]);
}

#[test]
fn packed_rotation_cycles() {
    for name in PieceName::all() {
        let mut piece = name.to_piece();
        let start = piece.draw();
        for _ in 0..piece.len() {
            piece.rot(true);
        }
        assert_eq!(piece.draw(), start);
        for _ in 0..piece.len() {
            piece.rot(false);
        }
        assert_eq!(piece.draw(), start);
        piece.rot(true);
        piece.rot(false);
        assert_eq!(piece.draw(), start);
    }
}

#[test]
fn packed_new_chains_turn_then_shift() {
    let base = map_of(&[4, 5, 6, 10]);
    let offsets: Vec<[i16; 2]> = vec![[0, -1], [0, 0], [-1, -1]];
    let mut piece = Piece::new(base, &offsets);
    assert_eq!(piece.len(), 4);
    let mut state = base;
    for offset in offsets {
        assert_eq!(piece.draw(), state.draw());
        state = state.ccw().trans(offset);
        piece.rot(true);
    }
    assert_eq!(piece.draw(), state.draw());
}

#[test]
fn packed_and_plain_pieces_agree() {
    let packed_names = PieceName::all();
    let plain_names = Name::all();
    assert_eq!(packed_names.len(), plain_names.len());
    for (packed_name, plain_name) in packed_names.iter().zip(plain_names.iter()) {
        let mut packed = packed_name.to_piece();
        let mut plain = plain_name.to_piece();
        assert_eq!(packed.len(), plain.len());
        for _ in 0..packed.len() {
            for y in 0..4u16 {
                for x in 0..4u16 {
                    let bit = packed.get_map().pos_bit(x, y);
                    assert_eq!(
                        packed.get_map().get_bit(bit),
                        plain.get(Pos::new(x as isize, y as isize))
                    );
                }
            }
            packed.rot(true);
            plain.rot(true);
        }
    }
}
