use chinese_checkers::board::{GREEN, NEUTRAL, ORANGE, PURPLE, RED, YELLOW};
use chinese_checkers::events::PlayerJoinedUpdate;
use chinese_checkers::game::GameState;
use chinese_checkers::model::{
    Message, Player, RoomDesc, RoomHandle, UpdateRoomStateRequest, UpdateRoomType,
};
use chinese_checkers::room::{
    chat_message, create_room, evict_stale_players, handle_move_request, join_room, on_move_timer,
    player_descs, rejection_response, room_is_stale, sorted_room_descs, update_room_state,
    validate_path_request, RejectionKind, RoomEvent, TimerAction,
};

fn fresh_room(now: u64) -> RoomHandle {
    create_room("roomid".to_string(), 0, "table one".to_string(), now).0
}

fn join(room: &mut RoomHandle, id: usize, name: &str, now: u64) -> PlayerJoinedUpdate {
    join_room(room, id, &name.to_string(), now).unwrap()
}

#[test]
fn two_player_lobby_to_game_start() {
    let mut room = fresh_room(10);
    let j1 = join(&mut room, 1, "a", 10);
    assert_eq!(j1.name, "player_joined");
    assert_eq!(j1.user_id, 1);
    assert_eq!(j1.player_color, PURPLE);
    assert_eq!(j1.player_cones.len(), 15);
    assert!(!j1.player_ready);
    assert_eq!(room.created_by, 1);

    let j2 = join(&mut room, 2, "b", 11);
    assert_eq!(j2.name, "player_joined");
    assert_eq!(j2.player_color, GREEN);

    // the second player picks Yellow before readying up
    let req = UpdateRoomStateRequest {
        update_type: UpdateRoomType::ColorChange,
        new_color: Some(YELLOW),
    };
    let (ev, timer) = update_room_state(&mut room, 2, &req);
    assert!(matches!(timer, TimerAction::Keep));
    match ev.unwrap() {
        RoomEvent::Colors(u) => {
            assert_eq!(u.name, "game_state");
            assert_eq!(u.room_id, "roomid");
            assert_eq!(u.game.get_cones(&2).len(), 15);
        }
        _ => panic!("expected a game_state event"),
    }

    let c2 = chat_message(&mut room, "b", 2, None, Some(true)).unwrap();
    assert_eq!(c2.name, "chat_message");
    assert_eq!(c2.ready, Some(true));
    let c1 = chat_message(&mut room, "a", 1, None, Some(true)).unwrap();
    assert_eq!(c1.ready, Some(true));

    let start = UpdateRoomStateRequest {
        update_type: UpdateRoomType::Start,
        new_color: None,
    };
    let (ev, timer) = update_room_state(&mut room, 1, &start);
    assert!(matches!(timer, TimerAction::Arm));
    match ev.unwrap() {
        RoomEvent::RoomState(u) => {
            assert_eq!(u.name, "room_state_update");
            assert!(u.room.game_started);
        }
        _ => panic!("expected a room_state_update event"),
    }
    assert!(room.game_started);
}

#[test]
fn start_needs_owner_and_full_readiness() {
    let mut room = fresh_room(0);
    join(&mut room, 1, "a", 0);
    join(&mut room, 2, "b", 0);
    let start = UpdateRoomStateRequest {
        update_type: UpdateRoomType::Start,
        new_color: None,
    };
    // nobody ready: rejected
    let (ev, timer) = update_room_state(&mut room, 1, &start);
    assert!(ev.is_none());
    assert!(matches!(timer, TimerAction::Keep));
    assert!(!room.game_started);
    chat_message(&mut room, "a", 1, None, Some(true));
    chat_message(&mut room, "b", 2, None, Some(true));
    // ready, but not the owner: rejected
    let (ev, _) = update_room_state(&mut room, 2, &start);
    assert!(ev.is_none());
    assert!(!room.game_started);
    // the owner starts
    let (ev, _) = update_room_state(&mut room, 1, &start);
    assert!(ev.is_some());
    assert!(room.game_started);
}

#[test]
fn legal_single_step_move() {
    let mut room = fresh_room(0);
    join(&mut room, 1, "a", 0);
    join(&mut room, 2, "b", 0);
    chat_message(&mut room, "a", 1, None, Some(true));
    chat_message(&mut room, "b", 2, None, Some(true));
    let start = UpdateRoomStateRequest {
        update_type: UpdateRoomType::Start,
        new_color: None,
    };
    update_room_state(&mut room, 1, &start);
    // Purple owns the cone on (4,0); one step into the empty hexagon cell (5,5)
    let (upd, timer) = handle_move_request(&mut room, 1, &vec![vec![4, 0], vec![5, 5]], 99).unwrap();
    assert_eq!(upd.name, "move_made");
    assert_eq!(upd.by_user_id, 1);
    assert_eq!(upd.path, vec![(4, 0), (5, 5)]);
    assert_eq!(upd.next_player, 1);
    assert!(!upd.game_finished);
    assert!(matches!(timer, TimerAction::Arm));
    assert_eq!(room.last_updated, 99);
    let gs = room.game_state.as_ref().unwrap();
    assert!(!gs.get_cones(&1).contains(&(4, 0)));
    assert!(gs.get_cones(&1).contains(&(5, 5)));
    // turn advanced: the same player may not move again
    assert!(handle_move_request(&mut room, 1, &vec![vec![5, 5], vec![4, 0]], 99).is_err());
}

#[test]
fn turn_rotation_returns_to_the_first_seat() {
    let mut room = fresh_room(0);
    join(&mut room, 1, "a", 0);
    join(&mut room, 2, "b", 0);
    join(&mut room, 3, "c", 0);
    chat_message(&mut room, "a", 1, None, Some(true));
    chat_message(&mut room, "b", 2, None, Some(true));
    chat_message(&mut room, "c", 3, None, Some(true));
    let start = UpdateRoomStateRequest {
        update_type: UpdateRoomType::Start,
        new_color: None,
    };
    update_room_state(&mut room, 1, &start);
    assert_eq!(room.active_player, 0);
    // three moves, one per player, return the turn to seat 0
    handle_move_request(&mut room, 1, &vec![vec![4, 0], vec![5, 5]], 1).unwrap();
    assert_eq!(room.active_player, 1);
    handle_move_request(&mut room, 2, &vec![vec![5, 11], vec![5, 10]], 2).unwrap();
    assert_eq!(room.active_player, 2);
    handle_move_request(&mut room, 3, &vec![vec![11, 11], vec![11, 10]], 3).unwrap();
    assert_eq!(room.active_player, 0);
}

#[test]
fn color_change_rejected_when_taken_or_ready() {
    let mut room = fresh_room(0);
    join(&mut room, 1, "a", 0);
    join(&mut room, 2, "b", 0);
    // user2 moves to Red
    let to_red = UpdateRoomStateRequest {
        update_type: UpdateRoomType::ColorChange,
        new_color: Some(RED),
    };
    let (ev, _) = update_room_state(&mut room, 2, &to_red);
    let red_state = match ev.unwrap() {
        RoomEvent::Colors(u) => u.game,
        _ => panic!("expected a game_state event"),
    };
    assert_eq!(red_state.get_cones(&2).len(), 15);
    // Purple is taken by user1: rejected, Red state preserved
    let to_purple = UpdateRoomStateRequest {
        update_type: UpdateRoomType::ColorChange,
        new_color: Some(PURPLE),
    };
    let (ev, _) = update_room_state(&mut room, 2, &to_purple);
    assert!(ev.is_none());
    let gs = room.game_state.as_ref().unwrap();
    assert_eq!(gs.get_player_color(2), Some(RED));
    assert_eq!(gs.get_cones(&2), red_state.get_cones(&2));
    // after readying up, no further color change
    chat_message(&mut room, "b", 2, None, Some(true));
    let to_blue = UpdateRoomStateRequest {
        update_type: UpdateRoomType::ColorChange,
        new_color: Some(6),
    };
    let (ev, _) = update_room_state(&mut room, 2, &to_blue);
    assert!(ev.is_none());
    assert_eq!(room.game_state.as_ref().unwrap().get_player_color(2), Some(RED));
}

#[test]
fn winner_detection_on_the_final_move() {
    // user3 plays Orange; every Blue home cell but (9,0) already holds an
    // orange cone, and one orange cone waits beside it on (10,0).
    let mut gs = GameState::new();
    gs.players_colors.push((3, ORANGE));
    for row in 5..10i32 {
        for col in 0..(10 - row) {
            if !(row == 9 && col == 0) {
                gs.add_cone(row, col, ORANGE).unwrap();
            }
        }
    }
    gs.add_cone(10, 0, ORANGE).unwrap();
    let mut room = RoomHandle {
        room_id: "w".to_string(),
        winner: None,
        created_by: 3,
        created_time: 0,
        last_updated: 0,
        name: "endgame".to_string(),
        game_started: true,
        game_finished: false,
        active_player: 0,
        game_state: Some(gs),
        players: vec![Player {
            user_id: 3,
            name: Some("c".to_string()),
            ready: true,
            last_active: 0,
        }],
    };
    let (upd, timer) = handle_move_request(&mut room, 3, &vec![vec![10, 0], vec![9, 0]], 5).unwrap();
    assert!(upd.game_finished);
    assert!(matches!(timer, TimerAction::Cancel));
    assert!(room.game_finished);
    assert_eq!(room.winner, Some(3));
}

#[test]
fn stale_player_reap() {
    let mut room = fresh_room(0);
    join(&mut room, 1, "a", 0);
    join(&mut room, 2, "b", 0);
    // the probe reaches only user1 at time 100_000
    chinese_checkers::room::record_probe(&mut room, 1, 100_000);
    // user2's last activity stays at 0; with a 40s ttl they are evicted
    let updates = evict_stale_players(&mut room, 100_000, 40_000);
    assert_eq!(room.players.len(), 1);
    assert_eq!(room.players[0].user_id, 1);
    assert_eq!(updates.len(), 1);
    assert_eq!(updates[0].name, "player_left");
    assert_eq!(updates[0].user_id, 2);
    assert_eq!(updates[0].player_color, GREEN);
    assert!(updates[0].remove_cones);
    // the lobby eviction freed user2's cones
    let gs = room.game_state.as_ref().unwrap();
    assert_eq!(gs.get_player_color(2), None);
    assert!(gs.is_occupied(5, 11).ok() == Some(false));
    // the room survives: someone is seated
    assert!(!room_is_stale(&room, 200_000, 60_000));
    let mut empty = fresh_room(0);
    assert!(room_is_stale(&empty, 70_000, 60_000));
    assert!(!room_is_stale(&empty, 10_000, 60_000));
    empty.last_updated = 50_000;
    assert!(!room_is_stale(&empty, 70_000, 60_000));
}

#[test]
fn leave_in_lobby_frees_the_color() {
    let mut room = fresh_room(0);
    join(&mut room, 1, "a", 0);
    join(&mut room, 2, "b", 0);
    let req = UpdateRoomStateRequest {
        update_type: UpdateRoomType::Leave,
        new_color: None,
    };
    let (ev, _) = update_room_state(&mut room, 1, &req);
    match ev.unwrap() {
        RoomEvent::Left(u) => {
            assert_eq!(u.user_id, 1);
            assert_eq!(u.player_color, PURPLE);
            assert!(u.remove_cones);
            assert_eq!(u.next_turn, 0);
        }
        _ => panic!("expected a player_left event"),
    }
    assert_eq!(room.players.len(), 1);
    assert_eq!(room.players[0].user_id, 2);
    let gs = room.game_state.as_ref().unwrap();
    assert_eq!(gs.get_player_color(1), None);
    // Purple's home is free again
    assert_eq!(gs.is_occupied(0, 0), Ok(false));
}

#[test]
fn room_gets_full_at_six_players() {
    let mut room = fresh_room(0);
    for id in 1..=6usize {
        assert!(join_room(&mut room, id, &format!("p{}", id), 0).is_ok());
    }
    assert!(join_room(&mut room, 7, &"late".to_string(), 0).is_err());
    assert_eq!(room.players.len(), 6);
}

#[test]
fn started_game_rejects_strangers_but_takes_rejoins() {
    let mut room = fresh_room(0);
    join(&mut room, 1, "a", 0);
    chat_message(&mut room, "a", 1, None, Some(true));
    let start = UpdateRoomStateRequest {
        update_type: UpdateRoomType::Start,
        new_color: None,
    };
    update_room_state(&mut room, 1, &start);
    assert!(join_room(&mut room, 9, &"x".to_string(), 0).is_err());
    let rejoin = join(&mut room, 1, "a", 5);
    assert!(rejoin.player_ready);
    assert_eq!(rejoin.player_color, PURPLE);
    assert_eq!(room.players.len(), 1);
}

#[test]
fn move_timer_event_only_while_playing() {
    let mut room = fresh_room(0);
    join(&mut room, 1, "a", 0);
    assert!(on_move_timer(&room, 30).is_none());
    room.game_started = true;
    let u = on_move_timer(&room, 30).unwrap();
    assert_eq!(u.name, "move_timer");
    assert_eq!(u.timer_value, 30);
    assert_eq!(u.user_id, 1);
    room.game_finished = true;
    assert!(on_move_timer(&room, 30).is_none());
}

#[test]
fn validate_route_accepts_and_rejects() {
    let mut room = fresh_room(0);
    join(&mut room, 1, "a", 0);
    assert_eq!(validate_path_request(&room, &vec![vec![4, 0], vec![5, 5]]), Ok(true));
    assert!(validate_path_request(&room, &vec![vec![4, 0], vec![4, 1]]).is_err());
    assert!(validate_path_request(&room, &vec![vec![4, 0]]).is_err());
    assert!(validate_path_request(&room, &vec![vec![4], vec![5, 5]]).is_err());
}

#[test]
fn room_listing_is_newest_first() {
    let descs = vec![
        create_room("a".to_string(), 1, "a".to_string(), 5).1,
        create_room("b".to_string(), 1, "b".to_string(), 9).1,
        create_room("c".to_string(), 1, "c".to_string(), 7).1,
    ];
    let sorted = sorted_room_descs(descs);
    assert_eq!(sorted.len(), 3);
    assert_eq!(sorted[0].id, "b");
    assert_eq!(sorted[1].id, "c");
    assert_eq!(sorted[2].id, "a");
}

#[test]
fn player_listing_carries_colors() {
    let mut room = fresh_room(0);
    join(&mut room, 1, "a", 0);
    join(&mut room, 2, "b", 0);
    chat_message(&mut room, "b", 2, None, Some(true));
    let descs = player_descs(&room);
    assert_eq!(descs.len(), 2);
    assert_eq!(descs[0].user_id, 1);
    assert_eq!(descs[0].color, PURPLE);
    assert_eq!(descs[0].name, "a");
    assert!(!descs[0].ready);
    assert_eq!(descs[1].user_id, 2);
    assert_eq!(descs[1].color, GREEN);
    assert!(descs[1].ready);
}

#[test]
fn rejection_table_matches_the_interface() {
    let cases = vec![
        (RejectionKind::NotFoundRoute, 404u16, "NOT_FOUND"),
        (RejectionKind::BodyError, 400, "BAD_REQUEST"),
        (RejectionKind::BodyErrorDenom, 400, "FIELD_ERROR: denom"),
        (RejectionKind::MethodNotAllowed, 405, "METHOD_NOT_ALLOWED"),
        (RejectionKind::UserMissing, 401, "User was not found"),
        (RejectionKind::RoomMissing, 400, "Room was not found"),
        (RejectionKind::RoomIsFull, 400, "Room room is full"),
        (RejectionKind::CorsForbidden, 400, "Header not allowed"),
        (RejectionKind::Unhandled, 500, "UNHANDLED_REJECTION"),
    ];
    for (kind, code, message) in cases {
        let e = rejection_response(&kind);
        assert_eq!(e.code, code);
        assert_eq!(e.message, message);
    }
}

#[test]
fn tokens_and_room_ids_have_their_printed_lengths() {
    let t = chinese_checkers::auth::add_user("ann".to_string(), 4, 42).unwrap();
    assert_eq!(t.token.chars().count(), 36);
    assert_eq!(t.user_id, 4);
    assert_eq!(t.created_at, 42);
    assert_eq!(t.user_name, "ann");
    let t2 = chinese_checkers::auth::refresh_token(4, "ann".to_string(), 43);
    assert_eq!(t2.token.chars().count(), 36);
    assert_ne!(t.token, t2.token);
    assert!(chinese_checkers::auth::add_user("".to_string(), 1, 0).is_err());
    assert!(chinese_checkers::auth::add_user("aaaaaaaaaaaaaaaa".to_string(), 1, 0).is_err());
    let (room, desc) = chinese_checkers::room::create_room_request(1, "fun".to_string(), 7).unwrap();
    assert_eq!(room.room_id.chars().count(), 32);
    assert_eq!(desc.id, room.room_id);
    assert!(chinese_checkers::room::create_room_request(1, "".to_string(), 7).is_err());
}

#[test]
fn neutral_color_for_unseated_leaver() {
    let mut room = fresh_room(0);
    join(&mut room, 1, "a", 0);
    let req = UpdateRoomStateRequest {
        update_type: UpdateRoomType::Leave,
        new_color: None,
    };
    let (ev, _) = update_room_state(&mut room, 42, &req);
    match ev.unwrap() {
        RoomEvent::Left(u) => {
            assert_eq!(u.user_id, 42);
            assert_eq!(u.player_color, NEUTRAL);
        }
        _ => panic!("expected a player_left event"),
    }
    assert_eq!(room.players.len(), 1);
}

#[test]
fn event_constructors_fill_their_tags() {
    let m = chinese_checkers::events::RoomUpdate::new(4, vec![(4, 0), (5, 5)], 1);
    assert_eq!(m.name, "move_made");
    assert!(!m.game_finished);
    let t = chinese_checkers::events::TurnChangeUpdate::new(2);
    assert_eq!(t.name, "turn_change");
    assert_eq!(t.turn_goes_to, 2);
    let mt = chinese_checkers::events::MoveTimerUpdate::new(30, 7);
    assert_eq!(mt.name, "move_timer");
    let g = chinese_checkers::events::GameColorsUpdate::new("r1", GameState::new());
    assert_eq!(g.name, "game_state");
    assert_eq!(g.room_id, "r1");
    match Message::event("test".to_string()) {
        Message::Event(e) => assert_eq!(e, "test"),
        Message::Text(_) => panic!("expected an event frame"),
    }
    let p = Player {
        user_id: 5,
        name: None,
        ready: true,
        last_active: 0,
    };
    let d = chinese_checkers::model::PlayerDesc::from_player(&p, 3);
    assert_eq!(d.name, "Player");
    assert_eq!(d.color, 3);
    assert!(d.ready);
    let (room, _) = chinese_checkers::room::create_room_request(1, "abc".to_string(), 0).unwrap();
    let desc = RoomDesc::from_room(&room);
    assert_eq!(desc.id, room.room_id);
    assert_eq!(RoomHandle::next_player(2, 3), 0);
    assert_eq!(RoomHandle::next_player(0, 3), 1);
    let mut gs = GameState::new();
    gs.add_cones_for_player(0, 8).unwrap();
    assert_eq!(gs.get_player_color(8), Some(PURPLE));
}
