use tetris::piece::{
    cases_rotation_offset, create_piece, piece_cases, rotated_cases, sample_case, Case, Offset,
};
use tetris::speed::drop_speed;

#[test]
fn templates_have_expected_shapes() {
    assert_eq!(
        piece_cases(Case::Red),
        vec![vec![Case::Red, Case::Red, Case::Empty], vec![Case::Empty, Case::Red, Case::Red]]
    );
    assert_eq!(
        piece_cases(Case::DarkYellow),
        vec![vec![Case::DarkYellow, Case::DarkYellow], vec![Case::DarkYellow, Case::DarkYellow]]
    );
    assert_eq!(piece_cases(Case::Cyan), vec![vec![Case::Cyan; 4]]);
    assert_eq!(
        piece_cases(Case::Purple),
        vec![vec![Case::Empty, Case::Purple, Case::Empty], vec![Case::Purple; 3]]
    );
}

#[test]
fn rotation_offsets_per_kind() {
    for i in 0..4 {
        assert_eq!(cases_rotation_offset(Case::DarkYellow, i), Offset { x: 0, y: 0 });
    }
    assert_eq!(cases_rotation_offset(Case::Cyan, 0), Offset { x: 2, y: -1 });
    assert_eq!(cases_rotation_offset(Case::Cyan, 1), Offset { x: -2, y: 2 });
    assert_eq!(cases_rotation_offset(Case::Cyan, 2), Offset { x: 1, y: -2 });
    assert_eq!(cases_rotation_offset(Case::Cyan, 3), Offset { x: -1, y: 1 });
    assert_eq!(cases_rotation_offset(Case::Blue, 0), Offset { x: 1, y: 0 });
    assert_eq!(cases_rotation_offset(Case::Green, 1), Offset { x: -1, y: 1 });
    assert_eq!(cases_rotation_offset(Case::Red, 2), Offset { x: 0, y: -1 });
    assert_eq!(cases_rotation_offset(Case::Purple, 3), Offset { x: 0, y: 0 });
}

#[test]
fn created_piece_is_centred_at_top() {
    let bar = create_piece(Case::Cyan);
    assert_eq!(bar.x, 3);
    assert_eq!(bar.y, 0);
    assert_eq!(bar.width(), 4);
    assert_eq!(bar.height(), 1);
    assert_eq!(bar.index_rotation, 0);
    assert_eq!(bar.last_move, 0);
    let square = create_piece(Case::DarkYellow);
    assert_eq!(square.x, 4);
    assert_eq!(square.width(), 2);
    assert_eq!(square.height(), 2);
    let t = create_piece(Case::Purple);
    assert_eq!(t.x, 3);
    assert_eq!(t.width(), 3);
}

#[test]
fn rotation_turns_clockwise() {
    let t = piece_cases(Case::Purple);
    let r = rotated_cases(&t);
    assert_eq!(
        r,
        vec![
            vec![Case::Purple, Case::Empty],
            vec![Case::Purple, Case::Purple],
            vec![Case::Purple, Case::Empty],
        ]
    );
    let bar = rotated_cases(&piece_cases(Case::Cyan));
    assert_eq!(bar, vec![vec![Case::Cyan]; 4]);
}

#[test]
fn four_rotations_restore_every_shape() {
    for k in 1..8u8 {
        let start = piece_cases(sample_case(k));
        let mut s = start.clone();
        for _ in 0..4 {
            s = rotated_cases(&s);
        }
        assert_eq!(s, start);
    }
}

#[test]
fn shape_cycle_lengths() {
    for kind in [Case::Blue, Case::Yellow, Case::Purple] {
        let start = piece_cases(kind);
        let mut s = start.clone();
        for _ in 0..3 {
            s = rotated_cases(&s);
            assert_ne!(s, start);
        }
    }
    let square = piece_cases(Case::DarkYellow);
    assert_eq!(rotated_cases(&square), square);
    let z = piece_cases(Case::Red);
    assert_eq!(rotated_cases(&rotated_cases(&z)), z);
}

#[test]
fn draws_map_to_kinds() {
    assert_eq!(sample_case(0), Case::Empty);
    assert_eq!(sample_case(1), Case::Red);
    assert_eq!(sample_case(2), Case::Green);
    assert_eq!(sample_case(3), Case::Blue);
    assert_eq!(sample_case(4), Case::Yellow);
    assert_eq!(sample_case(5), Case::DarkYellow);
    assert_eq!(sample_case(6), Case::Purple);
    assert_eq!(sample_case(7), Case::Cyan);
    assert_eq!(sample_case(8), Case::Empty);
}

#[test]
fn drop_speed_values() {
    assert_eq!(drop_speed(1), 1_000_000_000);
    assert_eq!(drop_speed(2), 793_000_000);
    assert_eq!(drop_speed(3), 617_796_000);
    assert_eq!(drop_speed(4), 472_729_139);
    assert_eq!(drop_speed(60), 0);
    assert_eq!(drop_speed(u32::MAX), 0);
}

#[test]
fn drop_speed_decreases_with_level() {
    let mut prev = drop_speed(1);
    for level in 2..40 {
        let cur = drop_speed(level);
        assert!(cur <= prev);
        prev = cur;
    }
}
