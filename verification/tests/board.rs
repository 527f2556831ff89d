use kikande::bao::board::{Mashumo, ZobristKeys};


#[test]
fn test_get_and_empty_seeds() {
    let keys = ZobristKeys::random();
    let mut mashumo = Mashumo {
        mashumo: [0, 1, 2, 3, 4, 5, 6, 7, 8, 9, 10, 11, 12, 13, 14, 15],
        bitboard: 0b01111111,
        zobrist: 0,
    };
    let value = mashumo.get_and_empty_seeds(&keys, 3);
    assert_eq!(value, 3);
    assert_eq!(mashumo.mashumo[3], 0);
}

#[test]
fn test_get_seeds() {
    let mashumo = Mashumo {
        mashumo: [0, 1, 2, 3, 4, 5, 6, 7, 8, 9, 10, 11, 12, 13, 14, 15],
        bitboard: 0b01111111,
        zobrist: 0,
    };
    let value = mashumo.get_seeds(3);
    assert_eq!(value, 3);
}

#[test]
fn test_increment_seeds() {
    let keys = ZobristKeys::random();
    let mut mashumo = Mashumo {
        mashumo: [0, 1, 2, 3, 4, 5, 6, 7, 8, 9, 10, 11, 12, 13, 14, 15],
        bitboard: 0b01111111,
        zobrist: 0,
    };
    mashumo.increment_seeds(&keys, 3);
    assert_eq!(mashumo.mashumo[3], 4);
}

#[test]
fn test_set_seeds() {
    let keys = ZobristKeys::random();
    let mut mashumo = Mashumo {
        mashumo: [0, 1, 2, 3, 4, 5, 6, 7, 8, 9, 10, 11, 12, 13, 14, 15],
        bitboard: 0b01111111,
        zobrist: 0,
    };
    mashumo.set_seeds(&keys, 3, 10);
    assert_eq!(mashumo.mashumo[3], 10);
}

#[test]
fn test_mashumo_get_shumo_cw() {
    let mashumo = Mashumo {
        mashumo: [0, 1, 2, 3, 4, 5, 6, 7, 8, 9, 10, 11, 12, 13, 14, 15],
        bitboard: 0b01111111,
        zobrist: 0,
    };
    let (value, index) = mashumo.get_shumo_cw(3, 0);
    assert_eq!(value, 2);
    assert_eq!(index, 2);
    let (value, index) = mashumo.get_shumo_cw(6, 14);
    assert_eq!(value, 3);
    assert_eq!(index, 3);
}

#[test]
fn test_mashumo_get_shumo_ccw() {
    let mashumo = Mashumo {
        mashumo: [0, 1, 2, 3, 4, 5, 6, 7, 8, 9, 10, 11, 12, 13, 14, 15],
        bitboard: 0b01111111,
        zobrist: 0,
    };
    let (value, index) = mashumo.get_shumo_ccw(3, 15);
    assert_eq!(value, 13);
    assert_eq!(index, 13);
    let (value, index) = mashumo.get_shumo_ccw(6, 1);
    assert_eq!(value, 12);
    assert_eq!(index, 12);
}

#[test]
fn test_get_shumo_opposite() {
    let mashumo = Mashumo {
        mashumo: [0, 1, 2, 3, 4, 5, 6, 7, 8, 9, 10, 11, 12, 13, 14, 15],
        bitboard: 0b01111111,
        zobrist: 0,
    };
    let index = mashumo.get_shumo_opposite(0);
    assert_eq!(index, Some(7));
    let index = mashumo.get_shumo_opposite(7);
    assert_eq!(index, Some(0));
    let index = mashumo.get_shumo_opposite(8);
    assert_eq!(index, None);
}

#[test]
fn test_mashumo_iter_index_cw() {
    let mashumo = Mashumo {
        mashumo: [0, 1, 2, 3, 4, 5, 6, 7, 8, 9, 10, 11, 12, 13, 14, 15],
        bitboard: 0b01111111,
        zobrist: 0,
    };
    let indices: Vec<usize> = mashumo.iter_index_cw(3, 0);
    assert_eq!(indices, vec![0, 1, 2]);
    let indices: Vec<usize> = mashumo.iter_index_cw(6, 14);
    assert_eq!(indices, vec![14, 15, 0, 1, 2, 3]);
}

#[test]
fn test_mashumo_iter_index_ccw() {
    let mashumo = Mashumo {
        mashumo: [0, 1, 2, 3, 4, 5, 6, 7, 8, 9, 10, 11, 12, 13, 14, 15],
        bitboard: 0b01111111,
        zobrist: 0,
    };
    let indices: Vec<usize> = mashumo.iter_index_ccw(3, 15);
    assert_eq!(indices, vec![15, 14, 13]);
    let indices: Vec<usize> = mashumo.iter_index_ccw(6, 1);
    assert_eq!(indices, vec![1, 0, 15, 14, 13, 12]);
}

#[test]
fn test_sow_cw() {
    let keys = ZobristKeys::random();
    let mut mashumo = Mashumo {
        mashumo: [0, 0, 0, 0, 0, 0, 0, 0, 0, 0, 0, 0, 0, 0, 0, 0],
        bitboard: 0b00000000,
        zobrist: 0,
    };
    let index = mashumo.sow_cw(&keys, 0, 3);
    assert_eq!(index, 2);
    assert_eq!(
        mashumo.mashumo,
        [1, 1, 1, 0, 0, 0, 0, 0, 0, 0, 0, 0, 0, 0, 0, 0]
    );
    let index = mashumo.sow_cw(&keys, 14, 6);
    assert_eq!(index, 3);
    assert_eq!(
        mashumo.mashumo,
        [2, 2, 2, 1, 0, 0, 0, 0, 0, 0, 0, 0, 0, 0, 1, 1]
    );
}

#[test]
fn test_sow_ccw() {
    let keys = ZobristKeys::random();
    let mut mashumo = Mashumo {
        mashumo: [0, 0, 0, 0, 0, 0, 0, 0, 0, 0, 0, 0, 0, 0, 0, 0],
        bitboard: 0b00000000,
        zobrist: 0,
    };
    let index = mashumo.sow_ccw(&keys, 15, 3);
    assert_eq!(index, 13);
    assert_eq!(
        mashumo.mashumo,
        [0, 0, 0, 0, 0, 0, 0, 0, 0, 0, 0, 0, 0, 1, 1, 1]
    );
    let index = mashumo.sow_ccw(&keys, 1, 6);
    assert_eq!(index, 12);
    assert_eq!(
        mashumo.mashumo,
        [1, 1, 0, 0, 0, 0, 0, 0, 0, 0, 0, 0, 1, 2, 2, 2]
    );
}
