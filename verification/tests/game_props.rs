use std::collections::HashSet;
use std::iter::FromIterator;

use chinese_checkers::board::{
    board_color_at, get_complementary, point_count_at, BLUE, GREEN, ORANGE, PURPLE, RED, YELLOW,
};
use chinese_checkers::game::GameState;

#[test]
fn test_validate_pos() {
    let mut game_state = GameState::new();
    assert!(game_state.add_cone(5, 6, YELLOW).is_ok());
    assert!(game_state.add_cone(4, 6, YELLOW).is_err());
    assert!(game_state.validate_cone_position(5, 6, YELLOW).is_ok());
    assert_ne!(true, game_state.validate_cone_position(5, 8, YELLOW).is_ok());
    assert_ne!(true, game_state.validate_cone_position(4, 8, YELLOW).is_ok());
}

#[test]
fn test_can_jump() {
    let mut game_state = GameState::new();
    assert!(game_state.add_cone(4, 0, YELLOW).is_ok());
    assert!(game_state.can_jump((3, 0), (5, 5)).is_ok());
    assert!(game_state.can_jump((3, 0), (3, 1)).is_err());
    assert!(game_state.can_jump((3, 0), (3, 2)).is_err());

    assert!(game_state.add_cone(3, 1, YELLOW).is_ok());
    assert!(game_state.can_jump((3, 0), (3, 2)).is_ok());
    assert!(game_state.can_jump((3, 0), (5, 6)).is_err());
}

#[test]
fn game_test_can_jump() {
    let mut game_state = GameState::new();
    assert!(game_state.add_cone(4, 0, YELLOW).is_ok());
    assert!(game_state.can_jump((3, 0), (5, 5)).is_ok());
    assert!(game_state.can_jump((3, 0), (3, 1)).is_err());
    assert!(game_state.can_jump((3, 0), (3, 2)).is_err());

    assert!(game_state.add_cone(3, 1, YELLOW).is_ok());
    assert!(game_state.can_jump((3, 0), (3, 2)).is_ok());
    assert!(game_state.can_jump((3, 0), (5, 6)).is_err());
}

#[test]
fn test_validate_path() {
    let mut game_state = GameState::new();
    assert!(game_state.add_cone(4, 0, YELLOW).is_ok());
    assert!(game_state.validate_path(&vec![(3, 0), (5, 5)]).is_ok());
    assert!(game_state.validate_path(&vec![(3, 0), (5, 5), (5, 6)]).is_err());
    assert!(game_state.validate_path(&vec![(3, 0), (3, 1)]).is_ok());
    assert!(game_state.validate_path(&vec![(3, 1), (3, 0), (5, 5)]).is_err());
    assert!(game_state.validate_path(&vec![(3, 1)]).is_err());
    assert!(game_state.validate_path(&vec![(3, 1), (3, 1)]).is_err());
}

#[test]
fn game_test_validate_path() {
    let mut game_state = GameState::new();
    assert!(game_state.add_cone(4, 0, YELLOW).is_ok());
    assert!(game_state.validate_path(&vec![(3, 0), (5, 5)]).is_ok());
    assert!(game_state.validate_path(&vec![(3, 0), (5, 5), (5, 6)]).is_err());
    assert!(game_state.validate_path(&vec![(3, 0), (3, 1)]).is_ok());
    assert!(game_state.validate_path(&vec![(3, 1), (3, 0), (5, 5)]).is_err());
    assert!(game_state.validate_path(&vec![(3, 1)]).is_err());
    assert!(game_state.validate_path(&vec![(3, 1), (3, 1)]).is_err());
}

#[test]
fn test_validate_path_regression() {
    let mut game_state = GameState::new();
    game_state.add_cones(123, PURPLE).unwrap();
    assert!(game_state.validate_path(&vec![(3, 3), (5, 10)]).is_ok());
}

#[test]
fn game_test_validate_path_regression() {
    let mut game_state = GameState::new();
    game_state.add_cones_for_color(PURPLE).unwrap();
    game_state.remove_cone(3, 3).unwrap();
    game_state.add_cone(6, 10, PURPLE).unwrap();

    assert!(game_state
        .validate_path(&vec![(1, 1), (3, 3), (5, 10), (7, 10)])
        .is_ok());
}

fn neighbor_set(gs: &GameState, row: i32, col: i32) -> HashSet<(usize, usize)> {
    HashSet::from_iter(gs.get_neighbors(row, col).unwrap().into_iter())
}

#[test]
fn test_get_neighbors() {
    let game_state = GameState::new();
    assert_eq!(
        HashSet::from_iter(vec![(1, 0), (1, 1)].into_iter()),
        neighbor_set(&game_state, 0, 0)
    );
    assert_eq!(
        HashSet::from_iter(vec![(12, 6), (12, 8), (11, 7), (11, 6), (13, 7), (13, 8)].into_iter()),
        neighbor_set(&game_state, 12, 7)
    );
    assert_eq!(
        HashSet::from_iter(vec![(5, 1), (6, 0)].into_iter()),
        neighbor_set(&game_state, 5, 0)
    );
    assert_eq!(
        HashSet::from_iter(vec![(5, 4), (5, 6), (4, 0), (6, 5), (6, 4)].into_iter()),
        neighbor_set(&game_state, 5, 5)
    );
    assert_eq!(
        HashSet::from_iter(vec![(3, 3), (4, 3), (5, 9), (5, 10)].into_iter()),
        neighbor_set(&game_state, 4, 4)
    );
    assert_eq!(
        HashSet::from_iter(vec![(3, 0), (3, 1), (4, 0), (4, 2), (5, 6), (5, 7)].into_iter()),
        neighbor_set(&game_state, 4, 1)
    );
    assert_eq!(
        HashSet::from_iter(vec![(3, 2), (3, 3), (4, 2), (4, 4), (5, 9), (5, 8)].into_iter()),
        neighbor_set(&game_state, 4, 3)
    );
    assert_eq!(
        HashSet::from_iter(vec![(14, 4), (14, 5), (15, 4), (15, 6), (16, 0)].into_iter()),
        neighbor_set(&game_state, 15, 5)
    );
    assert_eq!(
        HashSet::from_iter(vec![(14, 9), (14, 10), (15, 9), (15, 11), (16, 4)].into_iter()),
        neighbor_set(&game_state, 15, 10)
    );
    assert_eq!(
        HashSet::from_iter(vec![(9, 0), (9, 1), (11, 0), (11, 1), (10, 1)].into_iter()),
        neighbor_set(&game_state, 10, 0)
    );
}

#[test]
fn game_test_get_neighbors() {
    let game_state = GameState::new();
    assert_eq!(
        HashSet::from_iter(vec![(1, 0), (1, 1)].into_iter()),
        neighbor_set(&game_state, 0, 0)
    );
    assert_eq!(
        HashSet::from_iter(vec![(12, 6), (12, 8), (11, 7), (11, 6), (13, 7), (13, 8)].into_iter()),
        neighbor_set(&game_state, 12, 7)
    );
    assert_eq!(
        HashSet::from_iter(vec![(5, 1), (6, 0)].into_iter()),
        neighbor_set(&game_state, 5, 0)
    );
    assert_eq!(
        HashSet::from_iter(vec![(5, 14), (6, 14)].into_iter()),
        neighbor_set(&game_state, 5, 15)
    );
    assert_eq!(
        HashSet::from_iter(vec![(5, 4), (5, 6), (4, 0), (6, 5), (6, 4)].into_iter()),
        neighbor_set(&game_state, 5, 5)
    );
    assert_eq!(
        HashSet::from_iter(vec![(5, 8), (5, 6), (4, 2), (4, 1), (6, 6), (6, 7)].into_iter()),
        neighbor_set(&game_state, 5, 7)
    );
    assert_eq!(
        HashSet::from_iter(vec![(3, 3), (4, 3), (5, 9), (5, 10)].into_iter()),
        neighbor_set(&game_state, 4, 4)
    );
    assert_eq!(
        HashSet::from_iter(vec![(3, 0), (3, 1), (4, 0), (4, 2), (5, 6), (5, 7)].into_iter()),
        neighbor_set(&game_state, 4, 1)
    );
    assert_eq!(
        HashSet::from_iter(vec![(3, 2), (3, 3), (4, 2), (4, 4), (5, 9), (5, 8)].into_iter()),
        neighbor_set(&game_state, 4, 3)
    );
    assert_eq!(
        HashSet::from_iter(vec![(14, 4), (14, 5), (15, 4), (15, 6), (16, 0)].into_iter()),
        neighbor_set(&game_state, 15, 5)
    );
    assert_eq!(
        HashSet::from_iter(vec![(14, 9), (14, 10), (15, 9), (15, 11), (16, 4)].into_iter()),
        neighbor_set(&game_state, 15, 10)
    );
    assert_eq!(
        HashSet::from_iter(vec![(15, 1), (14, 0)].into_iter()),
        neighbor_set(&game_state, 15, 0)
    );
    assert_eq!(
        HashSet::from_iter(vec![(15, 14), (14, 14)].into_iter()),
        neighbor_set(&game_state, 15, 15)
    );
    assert_eq!(
        HashSet::from_iter(vec![(15, 8), (15, 6), (16, 2), (16, 1), (14, 6), (14, 7)].into_iter()),
        neighbor_set(&game_state, 15, 7)
    );
    assert_eq!(
        HashSet::from_iter(vec![(9, 0), (9, 1), (11, 0), (11, 1), (10, 1)].into_iter()),
        neighbor_set(&game_state, 10, 0)
    );
    assert_eq!(
        HashSet::from_iter(vec![(9, 5), (9, 6), (11, 5), (11, 6), (10, 4), (10, 6)].into_iter()),
        neighbor_set(&game_state, 10, 5)
    );
    assert_eq!(
        HashSet::from_iter(vec![(9, 4), (9, 6), (8, 5), (8, 6), (10, 4), (10, 5)].into_iter()),
        neighbor_set(&game_state, 9, 5)
    );
}

#[test]
fn neighbor_vectors_from_the_interface_contract() {
    let gs = GameState::new();
    assert_eq!(
        HashSet::from_iter(vec![(1, 0), (1, 1)].into_iter()),
        neighbor_set(&gs, 0, 0)
    );
    assert_eq!(
        HashSet::from_iter(vec![(5, 1), (6, 0)].into_iter()),
        neighbor_set(&gs, 5, 0)
    );
    assert_eq!(
        HashSet::from_iter(vec![(5, 4), (5, 6), (4, 0), (6, 5), (6, 4)].into_iter()),
        neighbor_set(&gs, 5, 5)
    );
    assert_eq!(
        HashSet::from_iter(vec![(5, 8), (5, 6), (4, 2), (4, 1), (6, 6), (6, 7)].into_iter()),
        neighbor_set(&gs, 5, 7)
    );
    assert_eq!(
        HashSet::from_iter(vec![(9, 0), (9, 1), (11, 0), (11, 1), (10, 1)].into_iter()),
        neighbor_set(&gs, 10, 0)
    );
    assert_eq!(
        HashSet::from_iter(vec![(12, 6), (12, 8), (11, 7), (11, 6), (13, 7), (13, 8)].into_iter()),
        neighbor_set(&gs, 12, 7)
    );
    assert_eq!(
        HashSet::from_iter(vec![(14, 4), (14, 5), (15, 4), (15, 6), (16, 0)].into_iter()),
        neighbor_set(&gs, 15, 5)
    );
}

#[test]
fn neighbor_symmetry_over_the_whole_board() {
    let gs = GameState::new();
    let mut all: Vec<(usize, usize, HashSet<(usize, usize)>)> = Vec::new();
    for row in 0..21i32 {
        let mut col = 0i32;
        while gs.get_neighbors(row, col).is_ok() {
            all.push((row as usize, col as usize, neighbor_set(&gs, row, col)));
            col += 1;
        }
    }
    assert_eq!(all.len(), 181);
    for (r, c, ns) in &all {
        for (nr, nc) in ns {
            let back = neighbor_set(&gs, *nr as i32, *nc as i32);
            assert!(
                back.contains(&(*r, *c)),
                "asymmetric: ({},{}) -> ({},{})",
                r,
                c,
                nr,
                nc
            );
        }
    }
}

#[test]
fn jump_symmetry_on_a_single_cone_board() {
    let mut gs = GameState::new();
    gs.add_cone(4, 0, YELLOW).unwrap();
    // (4,0) is the unique common neighbor of (3,0) and (5,5): both directions jump.
    assert!(gs.can_jump((3, 0), (5, 5)).is_ok());
    assert!(gs.can_jump((5, 5), (3, 0)).is_ok());
    // no common occupied neighbor: both directions rejected.
    assert!(gs.can_jump((3, 0), (5, 6)).is_err());
    assert!(gs.can_jump((5, 6), (3, 0)).is_err());
}

#[test]
fn move_and_reverse_restore_the_board() {
    let mut gs = GameState::new();
    gs.add_cones(1, PURPLE).unwrap();
    let before = gs.get_cones(&1);
    let (_, fin1) = gs.update_cones(&vec![(4, 0), (5, 5)], &1).unwrap();
    assert!(!fin1);
    let (_, fin2) = gs.update_cones(&vec![(5, 5), (4, 0)], &1).unwrap();
    assert!(!fin2);
    let after = gs.get_cones(&1);
    let a: HashSet<(usize, usize)> = HashSet::from_iter(before.into_iter());
    let b: HashSet<(usize, usize)> = HashSet::from_iter(after.into_iter());
    assert_eq!(a, b);
    assert_eq!(a.len(), 15);
}

#[test]
fn bounded_move_history_keeps_the_last_ten() {
    let mut gs = GameState::new();
    gs.add_cones(9, PURPLE).unwrap();
    let mut expected_last: Vec<Vec<(usize, usize)>> = Vec::new();
    for k in 0..100 {
        let path = if k % 2 == 0 {
            vec![(4i32, 0i32), (5i32, 5i32)]
        } else {
            vec![(5i32, 5i32), (4i32, 0i32)]
        };
        let (upath, _) = gs.update_cones(&path, &9).unwrap();
        expected_last.push(upath);
        if expected_last.len() > 10 {
            expected_last.remove(0);
        }
        assert!(gs.moves.len() <= 10);
    }
    assert_eq!(gs.moves.len(), 10);
    for (i, m) in gs.moves.iter().enumerate() {
        assert_eq!(m.0, PURPLE);
        assert_eq!(m.1, expected_last[i]);
    }
}

#[test]
fn illegal_path_rejected_without_mutation() {
    let mut gs = GameState::new();
    gs.add_cones(7, YELLOW).unwrap();
    gs.add_cone(4, 0, YELLOW).unwrap();
    let before = gs.get_cones(&7);
    // the first hop is a legal jump over (4,0); the second has no occupied pivot
    assert!(gs.validate_path(&vec![(3, 0), (5, 5), (5, 6)]).is_err());
    assert!(gs.update_cones(&vec![(3, 0), (5, 5), (5, 6)], &7).is_err());
    let after = gs.get_cones(&7);
    assert_eq!(before, after);
}

#[test]
fn out_of_bounds_and_rule_error_codes() {
    let gs = GameState::new();
    // out of bounds: error code 0
    assert_eq!(gs.validate_dimensions(-1, 0), Err(0));
    assert_eq!(gs.validate_dimensions(0, 1), Err(0));
    assert_eq!(gs.validate_dimensions(21, 0), Err(0));
    assert_eq!(gs.get_board_color(&0, &5), Err(0));
    // jump rejected on an empty board between in-bounds cells: error code 1
    assert_eq!(gs.can_jump((3, 0), (3, 2)), Err(1));
    // jump with an endpoint out of bounds: error code 0
    assert_eq!(gs.can_jump((-1, 0), (3, 2)), Err(0));
}

#[test]
fn win_requires_every_cone_on_the_complement_home() {
    let mut gs = GameState::new();
    gs.players_colors.push((3, ORANGE));
    // the Blue home is the complement of Orange: rows 5..=9, cols below 10 - row
    for row in 5..10i32 {
        for col in 0..(10 - row) {
            gs.add_cone(row, col, ORANGE).unwrap();
        }
    }
    assert_eq!(gs.is_all_cones_in_place(&3), Ok(true));
    // one stray cone breaks the win
    gs.add_cone(10, 0, ORANGE).unwrap();
    assert_eq!(gs.is_all_cones_in_place(&3), Ok(false));
    // an unseated user is an error
    assert_eq!(gs.is_all_cones_in_place(&99), Err(0));
}

#[test]
fn complement_pairs_and_involution() {
    assert_eq!(get_complementary(PURPLE), YELLOW);
    assert_eq!(get_complementary(YELLOW), PURPLE);
    assert_eq!(get_complementary(GREEN), RED);
    assert_eq!(get_complementary(RED), GREEN);
    assert_eq!(get_complementary(ORANGE), BLUE);
    assert_eq!(get_complementary(BLUE), ORANGE);
    for c in 1..=6usize {
        assert_eq!(get_complementary(get_complementary(c)), c);
    }
    assert_eq!(get_complementary(0), 0);
}

#[test]
fn cell_count_and_home_sizes() {
    let mut total = 0usize;
    let mut per_color = [0usize; 7];
    for row in 0..21usize {
        let n = point_count_at(row);
        total += n;
        for col in 0..n {
            per_color[board_color_at(row, col)] += 1;
        }
    }
    assert_eq!(total, 181);
    for c in 1..=6usize {
        assert_eq!(per_color[c], 15, "home size of color {}", c);
    }
    assert_eq!(per_color[0], 181 - 90);
}

#[test]
fn get_possible_steps_checks_bounds() {
    let gs = GameState::new();
    assert_eq!(gs.get_possible_steps((4, 0)), Ok(vec![]));
    assert!(gs.get_possible_steps((4, 5)).is_err());
}

#[test]
fn add_cones_is_idempotent_for_the_same_color() {
    let mut gs = GameState::new();
    gs.add_cones(1, PURPLE).unwrap();
    assert_eq!(gs.get_cones(&1).len(), 15);
    // same user, same color: accepted, nothing changes
    assert!(gs.add_cones(1, PURPLE).is_ok());
    assert_eq!(gs.get_cones(&1).len(), 15);
    // another user asking for the occupied color is rejected
    assert!(gs.add_cones(2, PURPLE).is_err());
    // removing the cones frees the color
    gs.remove_cones(1);
    assert_eq!(gs.get_cones(&1).len(), 0);
    assert!(gs.add_cones(2, PURPLE).is_ok());
    assert_eq!(gs.get_cones(&2).len(), 15);
}
