//! The typed events a room broadcasts to its players. Each carries the tag
//! the wire format uses as its `name` field; the transport layer serializes
//! the values and fans them out over the per-player queues.

use vstd::prelude::*;

use crate::game::GameState;
use crate::model::RoomDesc;
use crate::model::RoomHandle;
use vstd::string::StringExecFns;

verus! {

/// A move was made; tag `move_made`.
pub struct RoomUpdate {
    pub name: String,
    pub by_user_id: usize,
    pub path: Vec<(usize, usize)>,
    pub next_player: usize,
    pub game_finished: bool,
}

impl RoomUpdate {
    pub fn new_with_finished(
        by_user_id: usize,
        path: Vec<(usize, usize)>,
        next_player: usize,
        game_finished: bool,
    ) -> (u: RoomUpdate)
        ensures
            u.name@ == "move_made"@,
            u.by_user_id == by_user_id,
            u.path == path,
            u.next_player == next_player,
            u.game_finished == game_finished,
    {
        RoomUpdate {
            name: String::from_str("move_made"),
            by_user_id,
            path,
            next_player,
            game_finished,
        }
    }

    pub fn new(by_user_id: usize, path: Vec<(usize, usize)>, next_player: usize) -> (u: RoomUpdate)
        ensures
            u.name@ == "move_made"@,
            u.by_user_id == by_user_id,
            u.path == path,
            u.next_player == next_player,
            u.game_finished == false,
    {
        RoomUpdate::new_with_finished(by_user_id, path, next_player, false)
    }
}

/// The room's lifecycle changed; tag `room_state_update`.
pub struct RoomStateUpdate {
    pub name: String,
    pub room: RoomDesc,
}

impl RoomStateUpdate {
    pub fn new(room: &RoomHandle) -> (u: RoomStateUpdate)
        ensures
            u.name@ == "room_state_update"@,
            u.room.id@ == room.room_id@,
            u.room.name@ == room.name@,
            u.room.winner == room.winner,
            u.room.created_by == room.created_by,
            u.room.created_time == room.created_time,
            u.room.game_started == room.game_started,
            u.room.game_finished == room.game_finished,
            u.room.active_player == room.active_player,
            u.room.number_of_player == room.players@.len(),
    {
        RoomStateUpdate { name: String::from_str("room_state_update"), room: RoomDesc::from_room(room) }
    }
}

/// The move deadline is running; tag `move_timer`.
pub struct MoveTimerUpdate {
    pub name: String,
    pub timer_value: usize,
    pub user_id: usize,
}

impl MoveTimerUpdate {
    pub fn new(timer_value: usize, user_id: usize) -> (u: MoveTimerUpdate)
        ensures
            u.name@ == "move_timer"@,
            u.timer_value == timer_value,
            u.user_id == user_id,
    {
        MoveTimerUpdate { name: String::from_str("move_timer"), timer_value, user_id }
    }
}

/// The turn passed to another player; tag `turn_change`.
pub struct TurnChangeUpdate {
    pub name: String,
    pub turn_goes_to: usize,
}

impl TurnChangeUpdate {
    pub fn new(turn_goes_to: usize) -> (u: TurnChangeUpdate)
        ensures
            u.name@ == "turn_change"@,
            u.turn_goes_to == turn_goes_to,
    {
        TurnChangeUpdate { name: String::from_str("turn_change"), turn_goes_to }
    }
}

/// The full game state, sent after a color change; tag `game_state`.
pub struct GameColorsUpdate {
    pub name: String,
    pub room_id: String,
    pub game: GameState,
}

impl GameColorsUpdate {
    pub fn new(room_id: &str, gs: GameState) -> (u: GameColorsUpdate)
        ensures
            u.name@ == "game_state"@,
            u.room_id@ == room_id@,
            u.game == gs,
    {
        GameColorsUpdate { name: String::from_str("game_state"), room_id: String::from_str(room_id), game: gs }
    }
}

/// A chat line or a ready mark; tag `chat_message`.
pub struct ChatMessage {
    pub name: String,
    pub by: String,
    pub message: Option<String>,
    pub ready: Option<bool>,
    pub user_id: usize,
}

impl ChatMessage {
    pub fn new(by: &str, user_id: usize, message: Option<String>, ready: Option<bool>) -> (u:
        ChatMessage)
        ensures
            u.name@ == "chat_message"@,
            u.by@ == by@,
            u.message == message,
            u.ready == ready,
            u.user_id == user_id,
    {
        ChatMessage { name: String::from_str("chat_message"), by: String::from_str(by), message, ready, user_id }
    }
}

/// A player joined the room; tag `player_joined`.
pub struct PlayerJoinedUpdate {
    pub name: String,
    pub user_id: usize,
    pub room_id: String,
    pub player_cones: Vec<(usize, usize)>,
    pub player_name: String,
    pub player_color: usize,
    pub player_ready: bool,
}

impl PlayerJoinedUpdate {
    pub fn new(
        user_id: usize,
        room_id: String,
        player_cones: Vec<(usize, usize)>,
        player_name: String,
        player_color: usize,
        player_ready: bool,
    ) -> (u: PlayerJoinedUpdate)
        ensures
            u.name@ == "player_joined"@,
            u.user_id == user_id,
            u.room_id == room_id,
            u.player_cones == player_cones,
            u.player_name == player_name,
            u.player_color == player_color,
            u.player_ready == player_ready,
    {
        PlayerJoinedUpdate {
            name: String::from_str("player_joined"),
            user_id,
            room_id,
            player_cones,
            player_name,
            player_color,
            player_ready,
        }
    }
}

/// A player left the room; tag `player_left`.
pub struct PlayerLeftUpdate {
    pub name: String,
    pub user_id: usize,
    pub player_color: usize,
    pub room_id: String,
    pub next_turn: usize,
    pub remove_cones: bool,
}

impl PlayerLeftUpdate {
    pub fn new(
        user_id: usize,
        room_id: String,
        next_turn: usize,
        remove_cones: bool,
        player_color: usize,
    ) -> (u: PlayerLeftUpdate)
        ensures
            u.name@ == "player_left"@,
            u.user_id == user_id,
            u.room_id == room_id,
            u.next_turn == next_turn,
            u.remove_cones == remove_cones,
            u.player_color == player_color,
    {
        PlayerLeftUpdate {
            name: String::from_str("player_left"),
            user_id,
            room_id,
            next_turn,
            remove_cones,
            player_color,
        }
    }
}

} // verus!
