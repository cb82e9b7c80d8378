//! The room data model: users, players, rooms, the request and response
//! shapes of the interface, and the turn rotation.

use vstd::prelude::*;

use crate::game::GameState;
use vstd::string::StringExecFns;

verus! {

/// An authenticated user, as the token directory hands it to the core.
pub struct User {
    pub user_id: usize,
    pub user_name: String,
}

/// A seated player of a room. The outbound event queue that the transport
/// layer binds to the player lives outside the core.
pub struct Player {
    pub user_id: usize,
    pub name: Option<String>,
    pub ready: bool,
    pub last_active: u64,
}

/// One room: roster, turn cursor, lifecycle flags and the game state.
/// Times are milliseconds as the transport layer counts them.
pub struct RoomHandle {
    pub room_id: String,
    pub winner: Option<usize>,
    pub created_by: usize,
    pub created_time: u64,
    pub last_updated: u64,
    pub name: String,
    pub game_started: bool,
    pub game_finished: bool,
    pub active_player: usize,
    pub game_state: Option<GameState>,
    pub players: Vec<Player>,
}

pub struct AddUserRequest {
    pub name: String,
}

pub struct JoinRoomRequest {
    pub user_id: usize,
    pub room_id: usize,
}

pub struct CreateRoomRequest {
    pub room_name: String,
}

pub struct PublishToARoomRequest {
    pub path: Vec<Vec<i32>>,
    pub calculate_path: bool,
}

#[derive(PartialEq, Eq, Structural, Clone, Copy, Debug)]
pub enum UpdateRoomType {
    Start,
    Stop,
    ColorChange,
    Leave,
}

pub struct UpdateRoomStateRequest {
    pub update_type: UpdateRoomType,
    pub new_color: Option<usize>,
}

/// A room as listed to clients.
pub struct RoomDesc {
    pub id: String,
    pub name: String,
    pub winner: Option<usize>,
    pub created_by: usize,
    pub created_time: u64,
    pub game_started: bool,
    pub game_finished: bool,
    pub active_player: usize,
    pub number_of_player: usize,
}

pub struct CreateRoomResponse {
    pub room: RoomDesc,
    pub url: String,
}

#[derive(Debug)]
pub struct UserNotFound;

#[derive(Debug)]
pub struct RoomNotFound;

#[derive(Debug)]
pub struct RoomFull;

pub struct ErrorMessage {
    pub code: u16,
    pub message: String,
}

pub struct PlayerDesc {
    pub name: String,
    pub color: usize,
    pub user_id: usize,
    pub ready: bool,
}

pub struct RoomIdParameter {
    pub room_id: String,
}

pub struct TokenCreatedResponse {
    pub token: String,
    pub created_at: u64,
    pub user_id: usize,
    pub user_name: String,
}

pub struct SendMessageRequest {
    pub message: Option<String>,
    pub set_ready: Option<bool>,
}

pub struct TopicsRequest {
    pub mv: String,
}

/// A frame on a player's outbound queue: either a data frame or a bare
/// named event, such as the liveness probe.
pub enum Message {
    Text(String),
    Event(String),
}

impl Message {
    pub fn event(evt: String) -> (m: Message)
        ensures
            m == Message::Event(evt),
    {
        Message::Event(evt)
    }
}

impl PlayerDesc {
    /// A player as listed to clients; a nameless player is shown as "Player".
    pub fn from_player(p: &Player, color: usize) -> (d: PlayerDesc)
        ensures
            p.name matches Some(n) ==> d.name@ == n@,
            p.name is None ==> d.name@ == "Player"@,
            d.color == color,
            d.user_id == p.user_id,
            d.ready == p.ready,
    {
        let name = match &p.name {
            Some(n) => n.clone(),
            None => String::from_str("Player"),
        };
        PlayerDesc { name, color, user_id: p.user_id, ready: p.ready }
    }
}

impl RoomDesc {
    pub fn from_room(rh: &RoomHandle) -> (d: RoomDesc)
        ensures
            d.id@ == rh.room_id@,
            d.name@ == rh.name@,
            d.winner == rh.winner,
            d.created_by == rh.created_by,
            d.created_time == rh.created_time,
            d.game_started == rh.game_started,
            d.game_finished == rh.game_finished,
            d.active_player == rh.active_player,
            d.number_of_player == rh.players@.len(),
    {
        RoomDesc {
            id: rh.room_id.clone(),
            winner: rh.winner,
            name: rh.name.clone(),
            created_by: rh.created_by,
            created_time: rh.created_time,
            game_started: rh.game_started,
            game_finished: rh.game_finished,
            active_player: rh.active_player,
            number_of_player: rh.players.len(),
        }
    }
}

/// The turn cursor after one move.
pub open spec fn spec_next_player(player: int, total: int) -> int {
    (player + 1) % total
}

/// The turn cursor after `k` moves.
pub open spec fn rotated(player: int, total: int, k: nat) -> int
    decreases k,
{
    if k == 0 {
        player
    } else {
        spec_next_player(rotated(player, total, (k - 1) as nat), total)
    }
}

/// Within the first full round, the cursor that started at seat 0 stands at
/// seat `k` after `k` moves, and back at 0 after move `n`.
proof fn lemma_rotated_steps(n: int, k: nat)
    requires
        n >= 1,
        k <= n,
    ensures
        rotated(0, n, k) == if k < n {
            k as int
        } else {
            0
        },
    decreases k,
{
    if k > 0 {
        lemma_rotated_steps(n, (k - 1) as nat);
        assert(rotated(0, n, k) == (rotated(0, n, (k - 1) as nat) + 1) % n);
        if k < n {
            assert((k as int) % n == k as int) by (nonlinear_arith)
                requires
                    0 <= k < n,
            ;
        } else {
            assert(n % n == 0) by (nonlinear_arith)
                requires
                    n >= 1,
            ;
        }
    }
}

/// Turn rotation closes a cycle: with `n` players seated, `n` moves return
/// the turn to the seat it started from.
pub proof fn lemma_turn_rotation(n: int)
    requires
        n >= 1,
    ensures
        rotated(0, n, n as nat) == 0,
{
    lemma_rotated_steps(n, n as nat);
}

impl RoomHandle {
    /// Players hold pairwise distinct user ids, the turn cursor stays within
    /// the roster, and the game state is well-formed.
    pub open spec fn wf(self) -> bool {
        &&& (self.game_state matches Some(gs) ==> gs.wf())
        &&& (self.players@.len() > 0 ==> self.active_player < self.players@.len())
        &&& (self.players@.len() == 0 ==> self.active_player == 0)
        &&& (forall|i: int, j: int|
            0 <= i < j < self.players@.len() ==> (#[trigger] self.players@[i]).user_id != (
            #[trigger] self.players@[j]).user_id)
    }

    pub fn next_player(player: usize, total_players: usize) -> (r: usize)
        requires
            total_players >= 1,
            player < usize::MAX,
        ensures
            r == spec_next_player(player as int, total_players as int),
    {
        (player + 1) % total_players
    }

    /// The move is accepted: the room has a game, the user is seated on the
    /// color of the cone standing on the path's first cell, and the path is
    /// valid on the current board.
    pub open spec fn spec_move_ok(self, path: Seq<(int, int)>, user_id: usize) -> bool {
        &&& self.game_state matches Some(gs)
        &&& {
            let gs = self.game_state->0;
            &&& path.len() > 0
            &&& gs.spec_occupied(path[0].0, path[0].1)
            &&& gs.player_color(user_id) == gs.cone_at(path[0].0, path[0].1)
            &&& gs.spec_valid_path(path)
        }
    }

    /// Applies a move of `user_id` along `path`: the game state advances as
    /// `spec_after_move` describes, the turn passes to the next seat, and a
    /// winning move finishes the game and records the winner.
    pub fn make_a_move(&mut self, path: Vec<(i32, i32)>, user_id: usize) -> (res: Result<
        crate::events::RoomUpdate,
        usize,
    >)
        requires
            old(self).wf(),
            old(self).players@.len() >= 1,
            path@.len() >= 1,
        ensures
            final(self).wf(),
            res is Ok <==> old(self).spec_move_ok(crate::game::path_ints(path@), user_id),
            res is Err ==> *final(self) == *old(self),
            res matches Ok(u) ==> ({
                let pis = crate::game::path_ints(path@);
                let gs0 = old(self).game_state->0;
                let gs1 = final(self).game_state->0;
                let next = spec_next_player(
                    old(self).active_player as int,
                    old(self).players@.len() as int,
                );
                let finished = gs1.all_on_complement(gs0.player_color(user_id)->0);
                &&& final(self).game_state is Some
                &&& crate::game::spec_after_move(gs0, gs1, pis)
                &&& final(self).active_player == next
                &&& (finished ==> final(self).game_finished && final(self).winner == Some(user_id))
                &&& (!finished ==> final(self).game_finished == old(self).game_finished)
                &&& (!finished ==> final(self).winner == old(self).winner)
                &&& u.name@ == "move_made"@
                &&& u.by_user_id == user_id
                &&& u.next_player == next
                &&& u.game_finished == finished
                &&& u.path@.len() == path@.len()
                &&& (forall|i: int|
                    0 <= i < path@.len() ==> (#[trigger] u.path@[i]).0 == path@[i].0 && u.path@[i].1
                        == path@[i].1)
                &&& final(self).room_id == old(self).room_id
                &&& final(self).name == old(self).name
                &&& final(self).created_by == old(self).created_by
                &&& final(self).created_time == old(self).created_time
                &&& final(self).last_updated == old(self).last_updated
                &&& final(self).game_started == old(self).game_started
                &&& final(self).players == old(self).players
            }),
    {
        let total = self.players.len();
        let next = Self::next_player(self.active_player, total);
        match &mut self.game_state {
            None => Err(0),
            Some(gs) => {
                let (r0, c0) = path[0];
                let owner = match gs.validate_dimensions(r0, c0) {
                    Err(_) => None,
                    Ok((ur, uc)) => gs.get_cone(ur, uc),
                };
                let cl = match owner {
                    None => {
                        return Err(0);
                    },
                    Some(cl) => cl,
                };
                match gs.get_player_color(user_id) {
                    None => {
                        return Err(0);
                    },
                    Some(pc) => {
                        if pc != cl {
                            return Err(0);
                        }
                    },
                }
                match gs.update_cones(&path, &user_id) {
                    Err(e) => Err(e),
                    Ok((upath, game_finished)) => {
                        self.active_player = next;
                        if game_finished {
                            self.winner = Some(user_id);
                            self.game_finished = true;
                        }
                        Ok(crate::events::RoomUpdate::new_with_finished(
                            user_id,
                            upath,
                            next,
                            game_finished,
                        ))
                    },
                }
            },
        }
    }
}

} // verus!
