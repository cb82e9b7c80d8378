//! Room operations: creating a room, joining, chat and ready marks, moves
//! with their deadline-timer decisions, lifecycle updates, and the reaping
//! of stale players and rooms. Each function decides and mutates; the
//! transport layer performs the sends, sleeps and lookups around it.

use vstd::prelude::*;

use crate::events::ChatMessage;
use crate::events::MoveTimerUpdate;
use crate::events::RoomUpdate;
use crate::model::ErrorMessage;
use crate::model::Player;
use crate::model::RoomDesc;
use crate::model::RoomHandle;
use crate::model::spec_next_player;
use vstd::multiset::Multiset;
use vstd::string::StringExecFns;

verus! {

/// What the caller should do with the room's move-deadline timer.
#[derive(PartialEq, Eq, Structural, Clone, Copy, Debug)]
pub enum TimerAction {
    Arm,
    Cancel,
    Keep,
}

/// Every seated player has marked themselves ready.
pub open spec fn all_ready(room: RoomHandle) -> bool {
    forall|i: int| 0 <= i < room.players@.len() ==> (#[trigger] room.players@[i]).ready
}

/// Some seat belongs to `user_id`.
pub open spec fn has_player(room: RoomHandle, user_id: usize) -> bool {
    exists|i: int| 0 <= i < room.players@.len() && (#[trigger] room.players@[i]).user_id == user_id
}

/// The seat of `user_id` is marked ready.
pub open spec fn player_is_ready(room: RoomHandle, user_id: usize) -> bool {
    exists|i: int|
        0 <= i < room.players@.len() && (#[trigger] room.players@[i]).user_id == user_id
            && room.players@[i].ready
}

/// The age of a timestamp, saturating at zero.
pub open spec fn age_of(now: u64, then: u64) -> int {
    if now >= then {
        now - then
    } else {
        0
    }
}

/// Builds a fresh room in the lobby phase, owned by `user_id`, and its
/// listing.
pub fn create_room(room_id: String, user_id: usize, room_name: String, now: u64) -> (res: (
    RoomHandle,
    RoomDesc,
))
    ensures
        res.0.wf(),
        res.0.room_id == room_id,
        res.0.winner is None,
        res.0.created_by == user_id,
        res.0.created_time == now,
        res.0.last_updated == now,
        res.0.name == room_name,
        !res.0.game_started,
        !res.0.game_finished,
        res.0.active_player == 0,
        res.0.players@.len() == 0,
        res.0.game_state matches Some(gs) && gs.players_colors@.len() == 0 && (forall|r: int, c: int|
            crate::board::in_bounds(r, c) ==> #[trigger] gs.cone_at(r, c) is None),
        res.1.id@ == room_id@,
        res.1.name@ == room_name@,
        res.1.number_of_player == 0,
        !res.1.game_started,
{
    let handle = RoomHandle {
        winner: None,
        room_id,
        players: Vec::new(),
        name: room_name,
        active_player: 0,
        created_by: user_id,
        game_started: false,
        game_finished: false,
        created_time: now,
        last_updated: now,
        game_state: Some(crate::game::GameState::new()),
    };
    let desc = RoomDesc::from_room(&handle);
    (handle, desc)
}

/// Checks the requested room name and builds the room under a fresh id.
/// Relies on `new_room_id` for the id; rejects an empty or over-long name.
pub fn create_room_request(user_id: usize, room_name: String, now: u64) -> (res: Result<
    (RoomHandle, RoomDesc),
    usize,
>)
    ensures
        res is Ok <==> crate::auth::spec_name_ok(room_name@),
        res matches Err(e) ==> e == 0,
        res matches Ok(p) ==> ({
            &&& p.0.wf()
            &&& p.0.room_id@.len() == 32
            &&& p.0.created_by == user_id
            &&& p.0.name@ == room_name@
            &&& !p.0.game_started
            &&& p.0.players@.len() == 0
            &&& p.1.id@ == p.0.room_id@
        }),
{
    let len = room_name.as_str().unicode_len();
    if len == 0 || len > 15 {
        return Err(0);
    }
    let room_id = crate::auth::new_room_id();
    Ok(create_room(room_id, user_id, room_name, now))
}

/// The timer fired: if the game is running, the event naming the player
/// whose move is overdue; in the lobby or after the game, nothing.
pub fn on_move_timer(room: &RoomHandle, timer_value: usize) -> (res: Option<MoveTimerUpdate>)
    requires
        room.wf(),
    ensures
        res is Some <==> (room.game_started && !room.game_finished && room.players@.len() > 0),
        res matches Some(u) ==> ({
            &&& u.name@ == "move_timer"@
            &&& u.timer_value == timer_value
            &&& u.user_id == room.players@[room.active_player as int].user_id
        }),
{
    if room.game_started && !room.game_finished && room.players.len() > 0 {
        let p = &room.players[room.active_player];
        Some(MoveTimerUpdate::new(timer_value, p.user_id))
    } else {
        None
    }
}

/// A room is stale when nobody is seated and it has not been touched for
/// longer than the time to live.
pub fn room_is_stale(room: &RoomHandle, now: u64, ttl: u64) -> (b: bool)
    ensures
        b == (room.players@.len() == 0 && age_of(now, room.last_updated) >= ttl),
{
    if room.players.len() != 0 {
        return false;
    }
    let age = if now >= room.last_updated {
        now - room.last_updated
    } else {
        0
    };
    age >= ttl
}

/// A liveness probe reached `user_id`: their seat is marked active at `now`.
pub fn record_probe(room: &mut RoomHandle, user_id: usize, now: u64)
    requires
        old(room).wf(),
    ensures
        final(room).wf(),
        final(room).players@.len() == old(room).players@.len(),
        forall|i: int|
            0 <= i < old(room).players@.len() ==> {
                let p0 = old(room).players@[i];
                let p1 = #[trigger] final(room).players@[i];
                &&& p1.user_id == p0.user_id
                &&& p1.name == p0.name
                &&& p1.ready == p0.ready
                &&& p1.last_active == (if p0.user_id == user_id {
                    now
                } else {
                    p0.last_active
                })
            },
        final(room).room_id == old(room).room_id,
        final(room).winner == old(room).winner,
        final(room).created_by == old(room).created_by,
        final(room).created_time == old(room).created_time,
        final(room).last_updated == old(room).last_updated,
        final(room).name == old(room).name,
        final(room).game_started == old(room).game_started,
        final(room).game_finished == old(room).game_finished,
        final(room).active_player == old(room).active_player,
        final(room).game_state == old(room).game_state,
{
    let ghost orig = *old(room);
    let n = room.players.len();
    let mut i: usize = 0;
    while i < n
        invariant
            i <= n,
            n == room.players@.len(),
            *room == (RoomHandle { players: room.players, ..orig }),
            room.players@.len() == orig.players@.len(),
            forall|j: int|
                0 <= j < n ==> {
                    let p0 = orig.players@[j];
                    let p1 = #[trigger] room.players@[j];
                    &&& p1.user_id == p0.user_id
                    &&& p1.name == p0.name
                    &&& p1.ready == p0.ready
                    &&& p1.last_active == (if j < i && p0.user_id == user_id {
                        now
                    } else {
                        p0.last_active
                    })
                },
        decreases n - i,
    {
        if room.players[i].user_id == user_id {
            room.players[i].last_active = now;
        }
        i += 1;
    }
}

/// The kind of a failed request, as the transport layer classified it.
pub enum RejectionKind {
    NotFoundRoute,
    BodyError,
    BodyErrorDenom,
    MethodNotAllowed,
    UserMissing,
    RoomMissing,
    RoomIsFull,
    CorsForbidden,
    Unhandled,
}

/// The status code and message answered for each kind of failed request.
pub fn rejection_response(kind: &RejectionKind) -> (res: ErrorMessage)
    ensures
        res.code == (match kind {
            RejectionKind::NotFoundRoute => 404u16,
            RejectionKind::BodyError => 400,
            RejectionKind::BodyErrorDenom => 400,
            RejectionKind::MethodNotAllowed => 405,
            RejectionKind::UserMissing => 401,
            RejectionKind::RoomMissing => 400,
            RejectionKind::RoomIsFull => 400,
            RejectionKind::CorsForbidden => 400,
            RejectionKind::Unhandled => 500,
        }),
        res.message@ == (match kind {
            RejectionKind::NotFoundRoute => "NOT_FOUND"@,
            RejectionKind::BodyError => "BAD_REQUEST"@,
            RejectionKind::BodyErrorDenom => "FIELD_ERROR: denom"@,
            RejectionKind::MethodNotAllowed => "METHOD_NOT_ALLOWED"@,
            RejectionKind::UserMissing => "User was not found"@,
            RejectionKind::RoomMissing => "Room was not found"@,
            RejectionKind::RoomIsFull => "Room room is full"@,
            RejectionKind::CorsForbidden => "Header not allowed"@,
            RejectionKind::Unhandled => "UNHANDLED_REJECTION"@,
        }),
{
    match kind {
        RejectionKind::NotFoundRoute => ErrorMessage {
            code: 404,
            message: String::from_str("NOT_FOUND"),
        },
        RejectionKind::BodyError => ErrorMessage {
            code: 400,
            message: String::from_str("BAD_REQUEST"),
        },
        RejectionKind::BodyErrorDenom => ErrorMessage {
            code: 400,
            message: String::from_str("FIELD_ERROR: denom"),
        },
        RejectionKind::MethodNotAllowed => ErrorMessage {
            code: 405,
            message: String::from_str("METHOD_NOT_ALLOWED"),
        },
        RejectionKind::UserMissing => ErrorMessage {
            code: 401,
            message: String::from_str("User was not found"),
        },
        RejectionKind::RoomMissing => ErrorMessage {
            code: 400,
            message: String::from_str("Room was not found"),
        },
        RejectionKind::RoomIsFull => ErrorMessage {
            code: 400,
            message: String::from_str("Room room is full"),
        },
        RejectionKind::CorsForbidden => ErrorMessage {
            code: 400,
            message: String::from_str("Header not allowed"),
        },
        RejectionKind::Unhandled => ErrorMessage {
            code: 500,
            message: String::from_str("UNHANDLED_REJECTION"),
        },
    }
}

/// Marks the seat of `user_id` ready if asked, and shapes the chat event:
/// one is broadcast when the request carried a message or the ready mark
/// took effect on a seated player.
pub fn chat_message(
    room: &mut RoomHandle,
    by_name: &str,
    user_id: usize,
    message: Option<String>,
    set_ready: Option<bool>,
) -> (res: Option<ChatMessage>)
    requires
        old(room).wf(),
    ensures
        final(room).wf(),
        final(room).players@.len() == old(room).players@.len(),
        forall|i: int|
            0 <= i < old(room).players@.len() ==> {
                let p0 = old(room).players@[i];
                let p1 = #[trigger] final(room).players@[i];
                &&& p1.user_id == p0.user_id
                &&& p1.name == p0.name
                &&& p1.last_active == p0.last_active
                &&& p1.ready == (p0.ready || (set_ready is Some && p0.user_id == user_id))
            },
        final(room).game_state == old(room).game_state,
        final(room).game_started == old(room).game_started,
        final(room).active_player == old(room).active_player,
        res is Some <==> (message is Some || (set_ready is Some && has_player(
            *old(room),
            user_id,
        ))),
        res matches Some(cm) ==> ({
            &&& cm.name@ == "chat_message"@
            &&& cm.by@ == by_name@
            &&& cm.user_id == user_id
            &&& cm.message == message
            &&& cm.ready == (if set_ready is Some && has_player(*old(room), user_id) {
                Some(true)
            } else {
                None::<bool>
            })
        }),
{
    let ghost orig = *old(room);
    let mut marked = false;
    if set_ready.is_some() {
        let n = room.players.len();
        let mut i: usize = 0;
        while i < n
            invariant
                i <= n,
                n == room.players@.len(),
                *room == (RoomHandle { players: room.players, ..orig }),
                room.players@.len() == orig.players@.len(),
                forall|j: int|
                    0 <= j < n ==> {
                        let p0 = orig.players@[j];
                        let p1 = #[trigger] room.players@[j];
                        &&& p1.user_id == p0.user_id
                        &&& p1.name == p0.name
                        &&& p1.last_active == p0.last_active
                        &&& p1.ready == (p0.ready || (j < i && p0.user_id == user_id))
                    },
                marked <==> exists|j: int|
                    0 <= j < i && (#[trigger] orig.players@[j]).user_id == user_id,
            decreases n - i,
        {
            if room.players[i].user_id == user_id {
                room.players[i].ready = true;
                marked = true;
            }
            i += 1;
        }
    }
    if message.is_some() || marked {
        let ready_flag = if marked {
            Some(true)
        } else {
            None
        };
        Some(ChatMessage::new(by_name, user_id, message, ready_flag))
    } else {
        None
    }
}

/// A move request body as integer pairs, first two entries of each row.
pub open spec fn rows_to_pairs(s: Seq<Vec<i32>>) -> Seq<(int, int)> {
    s.map_values(|v: Vec<i32>| (v@[0] as int, v@[1] as int))
}

/// The request body is shaped like a path: at least two rows, each a pair.
pub open spec fn path_shape_ok(s: Seq<Vec<i32>>) -> bool {
    s.len() >= 2 && (forall|i: int| 0 <= i < s.len() ==> (#[trigger] s[i])@.len() == 2)
}

/// Handles a move request: the path must be shaped like a list of pairs, the
/// game must be running, it must be `user_id`'s turn, and the move itself
/// must be legal. On success the room records the move, `last_updated`
/// advances to `now`, and the caller re-arms the move deadline — or cancels
/// it when the move finished the game.
pub fn handle_move_request(
    room: &mut RoomHandle,
    user_id: usize,
    path: &Vec<Vec<i32>>,
    now: u64,
) -> (res: Result<(RoomUpdate, TimerAction), usize>)
    requires
        old(room).wf(),
    ensures
        final(room).wf(),
        res is Ok <==> (path_shape_ok(path@) && old(room).game_started && old(
            room,
        ).players@.len() > 0 && old(room).players@[old(room).active_player as int].user_id
            == user_id && old(room).spec_move_ok(rows_to_pairs(path@), user_id)),
        res is Err ==> *final(room) == *old(room),
        res matches Err(e) ==> e == 0 || e == 1,
        res matches Ok(p) ==> ({
            let pis = rows_to_pairs(path@);
            let gs0 = old(room).game_state->0;
            let gs1 = final(room).game_state->0;
            let next = spec_next_player(
                old(room).active_player as int,
                old(room).players@.len() as int,
            );
            let finished = gs1.all_on_complement(gs0.player_color(user_id)->0);
            &&& final(room).game_state is Some
            &&& crate::game::spec_after_move(gs0, gs1, pis)
            &&& final(room).active_player == next
            &&& (finished ==> final(room).game_finished && final(room).winner == Some(user_id))
            &&& (!finished ==> final(room).game_finished == old(room).game_finished)
            &&& (!finished ==> final(room).winner == old(room).winner)
            &&& final(room).last_updated == now
            &&& final(room).game_started == old(room).game_started
            &&& final(room).players == old(room).players
            &&& p.0.name@ == "move_made"@
            &&& p.0.by_user_id == user_id
            &&& p.0.next_player == next
            &&& p.0.game_finished == finished
            &&& p.0.path@.len() == path@.len()
            &&& (forall|i: int|
                0 <= i < path@.len() ==> ((#[trigger] p.0.path@[i]).0 as int,
                p.0.path@[i].1 as int) == pis[i])
            &&& p.1 == (if finished {
                TimerAction::Cancel
            } else {
                TimerAction::Arm
            })
        }),
{
    let ghost pis = rows_to_pairs(path@);
    if path.len() < 2 {
        return Err(0);
    }
    let mut i: usize = 0;
    while i < path.len()
        invariant
            i <= path@.len(),
            *room == *old(room),
            old(room).wf(),
            forall|j: int| 0 <= j < i ==> (#[trigger] path@[j])@.len() == 2,
        decreases path@.len() - i,
    {
        if path[i].len() != 2 {
            return Err(0);
        }
        i += 1;
    }
    if !room.game_started {
        return Err(0);
    }
    if room.players.len() == 0 {
        return Err(0);
    }
    let active = room.active_player;
    if room.players[active].user_id != user_id {
        return Err(0);
    }
    let mut transformed: Vec<(i32, i32)> = Vec::new();
    let mut i: usize = 0;
    while i < path.len()
        invariant
            i <= path@.len(),
            *room == *old(room),
            old(room).wf(),
            pis == rows_to_pairs(path@),
            forall|j: int| 0 <= j < path@.len() ==> (#[trigger] path@[j])@.len() == 2,
            transformed@.len() == i,
            forall|j: int|
                0 <= j < i ==> ((#[trigger] transformed@[j]).0 as int, transformed@[j].1 as int)
                    == pis[j],
        decreases path@.len() - i,
    {
        let row = &path[i];
        transformed.push((row[0], row[1]));
        i += 1;
    }
    proof {
        assert(crate::game::path_ints(transformed@) =~= pis);
    }
    match room.make_a_move(transformed, user_id) {
        Err(e) => {
            if e > 1 {
                Err(0)
            } else {
                Err(e)
            }
        },
        Ok(u) => {
            room.last_updated = now;
            let action = if u.game_finished {
                TimerAction::Cancel
            } else {
                TimerAction::Arm
            };
            Ok((u, action))
        },
    }
}

/// The color a joiner ends up offered: their current color if they are
/// seated in the game, else the lowest free color, else one beyond the
/// roster when the room has no game state.
pub open spec fn spec_join_color(room: RoomHandle, user_id: usize) -> usize {
    match room.game_state {
        Some(gs) => match gs.player_color(user_id) {
            Some(c) => c,
            None => gs.spec_default_color(),
        },
        None => (room.players@.len() + 1) as usize,
    }
}

/// Seats `user_id` in the room, or rebinds them if already seated: a full
/// room (more than six would be seated) and a started game the user has no
/// color in are rejected. A first-time joiner is appended to the roster —
/// the first joiner becomes the room's owner — and is dealt the lowest free
/// color, with that color's home cells filled where they are all free.
/// Returns the `player_joined` event to broadcast.
pub fn join_room(room: &mut RoomHandle, user_id: usize, user_name: &String, now: u64) -> (res:
    Result<crate::events::PlayerJoinedUpdate, crate::model::RoomFull>)
    requires
        old(room).wf(),
    ensures
        final(room).wf(),
        res is Err <==> (old(room).players@.len() > 5 || (old(room).game_started && !(old(
            room,
        ).game_state matches Some(gs) && gs.player_color(user_id) is Some))),
        res is Err ==> *final(room) == *old(room),
        res matches Ok(u) ==> ({
            let had = has_player(*old(room), user_id);
            let jc = spec_join_color(*old(room), user_id);
            &&& (had ==> final(room).players == old(room).players && final(room).created_by == old(
                room,
            ).created_by)
            &&& (!had ==> ({
                &&& final(room).players@.len() == old(room).players@.len() + 1
                &&& final(room).players@.drop_last() == old(room).players@
                &&& final(room).players@.last().user_id == user_id
                &&& final(room).players@.last().name matches Some(n) && n@ == user_name@
                &&& final(room).players@.last().ready == false
                &&& final(room).players@.last().last_active == now
                &&& final(room).created_by == (if old(room).players@.len() == 0 {
                    user_id
                } else {
                    old(room).created_by
                })
            }))
            &&& (old(room).game_state is None ==> final(room).game_state is None
                && u.player_cones@.len() == 0)
            &&& (old(room).game_state matches Some(gs0) ==> ({
                let gs1 = final(room).game_state->0;
                &&& final(room).game_state is Some
                &&& (gs0.player_color(user_id) is Some ==> gs1 == gs0)
                &&& (gs0.player_color(user_id) is None ==> ({
                    ||| ((forall|r: int, c: int|
                        crate::board::in_bounds(r, c) && crate::board::home_color(r, c)
                            == jc ==> #[trigger] gs0.cone_at(r, c) is None) && ({
                        &&& (forall|r: int, c: int|
                            crate::board::in_bounds(r, c) ==> #[trigger] gs1.cone_at(r, c) == (
                            if crate::board::home_color(r, c) == jc {
                                Some(jc)
                            } else {
                                gs0.cone_at(r, c)
                            }))
                        &&& gs1.player_color(user_id) == Some(jc)
                    }))
                    ||| (!(forall|r: int, c: int|
                        crate::board::in_bounds(r, c) && crate::board::home_color(r, c)
                            == jc ==> #[trigger] gs0.cone_at(r, c) is None) && gs1 == gs0)
                }))
                &&& (gs1.player_color(user_id) matches Some(cl) ==> (forall|p: (usize, usize)|
                    #[trigger] u.player_cones@.contains(p) <==> (crate::board::in_bounds(
                        p.0 as int,
                        p.1 as int,
                    ) && gs1.cone_at(p.0 as int, p.1 as int) == Some(cl))))
                &&& (gs1.player_color(user_id) is None ==> u.player_cones@.len() == 0)
            }))
            &&& u.name@ == "player_joined"@
            &&& u.user_id == user_id
            &&& u.room_id@ == old(room).room_id@
            &&& u.player_name@ == user_name@
            &&& u.player_color == jc
            &&& (!had ==> u.player_ready == false)
            &&& (forall|i: int|
                0 <= i < old(room).players@.len() && (#[trigger] old(room).players@[i]).user_id
                    == user_id ==> u.player_ready == old(room).players@[i].ready)
            &&& final(room).room_id == old(room).room_id
            &&& final(room).name == old(room).name
            &&& final(room).game_started == old(room).game_started
            &&& final(room).game_finished == old(room).game_finished
            &&& final(room).winner == old(room).winner
            &&& final(room).active_player == old(room).active_player
            &&& final(room).created_time == old(room).created_time
            &&& final(room).last_updated == old(room).last_updated
        }),
{
    if room.players.len() > 5 {
        return Err(crate::model::RoomFull);
    }
    let has_color = match &room.game_state {
        Some(gs) => gs.get_player_color(user_id).is_some(),
        None => false,
    };
    if room.game_started && !has_color {
        return Err(crate::model::RoomFull);
    }
    let player_color = match &room.game_state {
        Some(gs) => match gs.get_player_color(user_id) {
            Some(c) => c,
            None => gs.default_color(),
        },
        None => room.players.len() + 1,
    };
    let mut existing_ready: Option<bool> = None;
    let n = room.players.len();
    let mut i: usize = 0;
    while i < n
        invariant
            i <= n,
            *room == *old(room),
            old(room).wf(),
            n == room.players@.len(),
            existing_ready is None ==> forall|j: int|
                0 <= j < i ==> (#[trigger] room.players@[j]).user_id != user_id,
            existing_ready matches Some(rd) ==> exists|j: int|
                0 <= j < i && (#[trigger] room.players@[j]).user_id == user_id
                    && room.players@[j].ready == rd,
            existing_ready matches Some(rd) ==> forall|j: int|
                0 <= j < room.players@.len() && (#[trigger] room.players@[j]).user_id
                    == user_id ==> room.players@[j].ready == rd,
        decreases n - i,
    {
        let p = &room.players[i];
        if p.user_id == user_id {
            proof {
                assert forall|j: int|
                    0 <= j < room.players@.len() && (#[trigger] room.players@[j]).user_id
                        == user_id implies room.players@[j].ready == room.players@[i as int].ready by {
                    if j < i as int {
                        assert(room.players@[j].user_id != user_id);
                    } else if j > i as int {
                        assert(room.players@[i as int].user_id != room.players@[j].user_id);
                    }
                }
            }
            existing_ready = Some(p.ready);
        }
        i += 1;
    }
    if existing_ready.is_none() {
        room.players.push(
            Player { user_id, name: Some(user_name.clone()), ready: false, last_active: now },
        );
        if room.players.len() == 1 {
            room.created_by = user_id;
        }
    }
    let mut cones_out: Vec<(usize, usize)> = Vec::new();
    match &mut room.game_state {
        Some(gs) => {
            if !has_color {
                match gs.add_cones(user_id, player_color) {
                    Ok(_) => {},
                    Err(_) => {},
                }
            }
            cones_out = gs.get_cones(&user_id);
        },
        None => {},
    }
    let ready_flag = match existing_ready {
        Some(r) => r,
        None => false,
    };
    Ok(crate::events::PlayerJoinedUpdate::new(
        user_id,
        room.room_id.clone(),
        cones_out,
        user_name.clone(),
        player_color,
        ready_flag,
    ))
}

/// An event a lifecycle update asks the caller to broadcast.
pub enum RoomEvent {
    RoomState(crate::events::RoomStateUpdate),
    Colors(crate::events::GameColorsUpdate),
    Left(crate::events::PlayerLeftUpdate),
}

/// Some seat of the roster belongs to `user_id`.
pub open spec fn roster_contains(s: Seq<Player>, user_id: usize) -> bool {
    exists|i: int| 0 <= i < s.len() && (#[trigger] s[i]).user_id == user_id
}

/// Whether some seat of the roster belongs to `user_id`.
fn roster_has(players: &Vec<Player>, user_id: usize) -> (b: bool)
    ensures
        b == roster_contains(players@, user_id),
{
    let mut i: usize = 0;
    while i < players.len()
        invariant
            i <= players@.len(),
            forall|j: int| 0 <= j < i ==> (#[trigger] players@[j]).user_id != user_id,
        decreases players@.len() - i,
    {
        if players[i].user_id == user_id {
            proof {
                assert(players@[i as int].user_id == user_id);
            }
            return true;
        }
        i += 1;
    }
    false
}

/// Takes the seat of `user_id` out of the roster, keeping the others in
/// order.
fn remove_from_roster(players: &mut Vec<Player>, user_id: usize)
    ensures
        final(players)@ == old(players)@.filter(|p: Player| p.user_id != user_id),
{
    let ghost orig = old(players)@;
    let ghost pred = |p: Player| p.user_id != user_id;
    proof {
        assert(forall|q: Player| #[trigger] pred(q) == (q.user_id != user_id));
    }
    let mut kept: Vec<Player> = Vec::new();
    proof {
        reveal(Seq::filter);
        assert(orig.take(0) =~= Seq::<Player>::empty());
    }
    let ghost mut j: int = 0;
    while players.len() > 0
        invariant
            0 <= j <= orig.len(),
            players@ == orig.skip(j),
            kept@ == orig.take(j).filter(pred),
            pred == (|p: Player| p.user_id != user_id),
        decreases players@.len(),
    {
        let p = players.remove(0);
        proof {
            reveal(Seq::filter);
            assert(p == orig[j]);
            assert(orig.skip(j).remove(0) =~= orig.skip(j + 1));
            assert(orig.take(j + 1).drop_last() =~= orig.take(j));
            assert(orig.take(j + 1).last() == orig[j]);
            assert(pred(orig[j]) == (p.user_id != user_id));
            assert(orig.take(j + 1).filter(pred) == (if pred(orig[j]) {
                orig.take(j).filter(pred).push(orig[j])
            } else {
                orig.take(j).filter(pred)
            }));
        }
        if p.user_id != user_id {
            kept.push(p);
        }
        proof {
            j = j + 1;
        }
    }
    proof {
        reveal(Seq::filter);
        assert(orig.take(j) =~= orig);
        assert(orig.take(j).filter(pred) == orig.filter(pred));
    }
    *players = kept;
}

/// Keeps exactly the seats whose player was active within the time to live.
fn retain_live(players: &mut Vec<Player>, now: u64, ttl: u64)
    ensures
        final(players)@ == old(players)@.filter(
            |p: Player| age_of(now, p.last_active) < ttl as int,
        ),
{
    let ghost orig = old(players)@;
    let ghost pred = |p: Player| age_of(now, p.last_active) < ttl as int;
    proof {
        assert(forall|q: Player| #[trigger] pred(q) == (age_of(now, q.last_active) < ttl as int));
    }
    let mut kept: Vec<Player> = Vec::new();
    proof {
        reveal(Seq::filter);
        assert(orig.take(0) =~= Seq::<Player>::empty());
    }
    let ghost mut j: int = 0;
    while players.len() > 0
        invariant
            0 <= j <= orig.len(),
            players@ == orig.skip(j),
            kept@ == orig.take(j).filter(pred),
            pred == (|p: Player| age_of(now, p.last_active) < ttl as int),
        decreases players@.len(),
    {
        let p = players.remove(0);
        proof {
            reveal(Seq::filter);
            assert(p == orig[j]);
            assert(orig.skip(j).remove(0) =~= orig.skip(j + 1));
            assert(orig.take(j + 1).drop_last() =~= orig.take(j));
            assert(orig.take(j + 1).last() == orig[j]);
            assert(pred(orig[j]) == (age_of(now, p.last_active) < ttl as int));
            assert(orig.take(j + 1).filter(pred) == (if pred(orig[j]) {
                orig.take(j).filter(pred).push(orig[j])
            } else {
                orig.take(j).filter(pred)
            }));
        }
        let age = if now >= p.last_active {
            now - p.last_active
        } else {
            0
        };
        if age < ttl {
            kept.push(p);
        }
        proof {
            j = j + 1;
        }
    }
    proof {
        reveal(Seq::filter);
        assert(orig.take(j) =~= orig);
        assert(orig.take(j).filter(pred) == orig.filter(pred));
    }
    *players = kept;
}

/// A filtered sequence holds only elements of the original.
proof fn lemma_filter_subset<A>(s: Seq<A>, pred: spec_fn(A) -> bool)
    ensures
        forall|x: A| #[trigger] s.filter(pred).contains(x) ==> s.contains(x),
    decreases s.len(),
{
    reveal(Seq::filter);
    if s.len() > 0 {
        lemma_filter_subset(s.drop_last(), pred);
        assert forall|x: A| #[trigger] s.filter(pred).contains(x) implies s.contains(x) by {
            if s.drop_last().filter(pred).contains(x) {
                assert(s.drop_last().contains(x));
                let k = choose|k: int|
                    0 <= k < s.drop_last().len() && s.drop_last()[k] == x;
                assert(s[k] == x);
            } else {
                assert(x == s.last());
            }
        }
    }
}

/// Filtering a roster with pairwise distinct user ids keeps them distinct.
proof fn lemma_filter_unique_players(s: Seq<Player>, pred: spec_fn(Player) -> bool)
    requires
        forall|i: int, j: int|
            0 <= i < j < s.len() ==> (#[trigger] s[i]).user_id != (#[trigger] s[j]).user_id,
    ensures
        forall|i: int, j: int|
            0 <= i < j < s.filter(pred).len() ==> (#[trigger] s.filter(pred)[i]).user_id != (
            #[trigger] s.filter(pred)[j]).user_id,
    decreases s.len(),
{
    reveal(Seq::filter);
    if s.len() > 0 {
        lemma_filter_unique_players(s.drop_last(), pred);
        lemma_filter_subset(s.drop_last(), pred);
        let f = s.filter(pred);
        let fd = s.drop_last().filter(pred);
        assert forall|i: int, j: int|
            0 <= i < j < f.len() implies (#[trigger] f[i]).user_id != (#[trigger] f[j]).user_id by {
            if j < fd.len() {
                assert(fd[i] == f[i] && fd[j] == f[j]);
            } else {
                assert(f[j] == s.last());
                assert(fd.contains(f[i]));
                assert(s.drop_last().contains(f[i]));
                let k = choose|k: int|
                    0 <= k < s.drop_last().len() && s.drop_last()[k] == f[i];
                assert(s[k] == f[i]);
                assert(s[k].user_id != s[s.len() - 1].user_id);
            }
        }
    }
}

/// Filtering an assignment with pairwise distinct keys keeps them distinct.
proof fn lemma_filter_unique_keys(s: Seq<(usize, usize)>, pred: spec_fn((usize, usize)) -> bool)
    requires
        forall|i: int, j: int| 0 <= i < j < s.len() ==> (#[trigger] s[i]).0 != (#[trigger] s[j]).0,
    ensures
        forall|i: int, j: int|
            0 <= i < j < s.filter(pred).len() ==> (#[trigger] s.filter(pred)[i]).0 != (
            #[trigger] s.filter(pred)[j]).0,
    decreases s.len(),
{
    reveal(Seq::filter);
    if s.len() > 0 {
        lemma_filter_unique_keys(s.drop_last(), pred);
        lemma_filter_subset(s.drop_last(), pred);
        let f = s.filter(pred);
        let fd = s.drop_last().filter(pred);
        assert forall|i: int, j: int|
            0 <= i < j < f.len() implies (#[trigger] f[i]).0 != (#[trigger] f[j]).0 by {
            if j < fd.len() {
                assert(fd[i] == f[i] && fd[j] == f[j]);
            } else {
                assert(f[j] == s.last());
                assert(fd.contains(f[i]));
                assert(s.drop_last().contains(f[i]));
                let k = choose|k: int|
                    0 <= k < s.drop_last().len() && s.drop_last()[k] == f[i];
                assert(s[k] == f[i]);
                assert(s[k].0 != s[s.len() - 1].0);
            }
        }
    }
}

/// Drops from the seating every color binding whose user no longer holds a
/// seat, and returns the dropped bindings in order.
fn drop_colors_of_absent(gs: &mut crate::game::GameState, players: &Vec<Player>) -> (gone: Vec<
    (usize, usize),
>)
    requires
        old(gs).wf(),
    ensures
        final(gs).wf(),
        final(gs).cones == old(gs).cones,
        final(gs).moves == old(gs).moves,
        final(gs).players_colors@ == old(gs).players_colors@.filter(
            |e: (usize, usize)| roster_contains(players@, e.0),
        ),
        gone@ == old(gs).players_colors@.filter(
            |e: (usize, usize)| !roster_contains(players@, e.0),
        ),
{
    let ghost orig = old(gs).players_colors@;
    let ghost keep_pred = |e: (usize, usize)| roster_contains(players@, e.0);
    let ghost gone_pred = |e: (usize, usize)| !roster_contains(players@, e.0);
    let mut kept: Vec<(usize, usize)> = Vec::new();
    let mut gone: Vec<(usize, usize)> = Vec::new();
    let ghost mut j: int = 0;
    proof {
        reveal(Seq::filter);
        assert(orig.take(0) =~= Seq::<(usize, usize)>::empty());
    }
    while gs.players_colors.len() > 0
        invariant
            0 <= j <= orig.len(),
            gs.players_colors@ == orig.skip(j),
            gs.cones == old(gs).cones,
            gs.moves == old(gs).moves,
            gs.grid_wf(),
            gs.moves_wf(),
            kept@ == orig.take(j).filter(keep_pred),
            gone@ == orig.take(j).filter(gone_pred),
            keep_pred == (|e: (usize, usize)| roster_contains(players@, e.0)),
            gone_pred == (|e: (usize, usize)| !roster_contains(players@, e.0)),
        decreases gs.players_colors@.len(),
    {
        let e = gs.players_colors.remove(0);
        proof {
            reveal(Seq::filter);
            assert(e == orig[j]);
            assert(orig.skip(j).remove(0) =~= orig.skip(j + 1));
            assert(orig.take(j + 1).drop_last() =~= orig.take(j));
            assert(orig.take(j + 1).last() == orig[j]);
            assert(keep_pred(orig[j]) == roster_contains(players@, e.0));
            assert(gone_pred(orig[j]) == !roster_contains(players@, e.0));
            assert(orig.take(j + 1).filter(keep_pred) == (if keep_pred(orig[j]) {
                orig.take(j).filter(keep_pred).push(orig[j])
            } else {
                orig.take(j).filter(keep_pred)
            }));
            assert(orig.take(j + 1).filter(gone_pred) == (if gone_pred(orig[j]) {
                orig.take(j).filter(gone_pred).push(orig[j])
            } else {
                orig.take(j).filter(gone_pred)
            }));
        }
        if roster_has(players, e.0) {
            kept.push(e);
        } else {
            gone.push(e);
        }
        proof {
            j = j + 1;
        }
    }
    proof {
        reveal(Seq::filter);
        assert(orig.take(j) =~= orig);
        assert(orig.take(j).filter(keep_pred) == orig.filter(keep_pred));
        assert(orig.take(j).filter(gone_pred) == orig.filter(gone_pred));
        lemma_filter_unique_keys(orig, keep_pred);
    }
    gs.players_colors = kept;
    gone
}

/// One reaper pass over a room: evicts every player whose last activity is
/// older than the time to live, clamps the turn cursor, drops the evicted
/// players' color bindings — and, in the lobby, their cones — and returns
/// one `player_left` event per dropped binding.
pub fn evict_stale_players(room: &mut RoomHandle, now: u64, ttl: u64) -> (updates: Vec<
    crate::events::PlayerLeftUpdate,
>)
    requires
        old(room).wf(),
    ensures
        final(room).wf(),
        final(room).players@ == old(room).players@.filter(
            |p: Player| age_of(now, p.last_active) < ttl as int,
        ),
        final(room).active_player == old(room).active_player as int % (
        if final(room).players@.len() == 0 {
            1int
        } else {
            final(room).players@.len() as int
        }),
        old(room).game_state is None ==> final(room).game_state is None && updates@.len() == 0,
        old(room).game_state matches Some(gs0) ==> ({
            let gs1 = final(room).game_state->0;
            let gone = gs0.players_colors@.filter(
                |e: (usize, usize)| !roster_contains(final(room).players@, e.0),
            );
            &&& final(room).game_state is Some
            &&& gs1.players_colors@ == gs0.players_colors@.filter(
                |e: (usize, usize)| roster_contains(final(room).players@, e.0),
            )
            &&& gs1.moves == gs0.moves
            &&& updates@.len() == gone.len()
            &&& (forall|i: int|
                0 <= i < gone.len() ==> ({
                    let u = #[trigger] updates@[i];
                    &&& u.name@ == "player_left"@
                    &&& u.user_id == gone[i].0
                    &&& u.player_color == gone[i].1
                    &&& u.room_id@ == old(room).room_id@
                    &&& u.next_turn == final(room).active_player
                    &&& u.remove_cones == !old(room).game_started
                }))
            &&& (old(room).game_started ==> gs1.cones == gs0.cones)
            &&& (!old(room).game_started ==> (forall|r: int, c: int|
                crate::board::in_bounds(r, c) ==> #[trigger] gs1.cone_at(r, c) == (
                if gs0.cone_at(r, c) matches Some(cc) && (exists|k: int|
                    0 <= k < gone.len() && (#[trigger] gone[k]).1 == cc) {
                    None::<usize>
                } else {
                    gs0.cone_at(r, c)
                })))
        }),
        final(room).room_id == old(room).room_id,
        final(room).name == old(room).name,
        final(room).created_by == old(room).created_by,
        final(room).created_time == old(room).created_time,
        final(room).last_updated == old(room).last_updated,
        final(room).game_started == old(room).game_started,
        final(room).game_finished == old(room).game_finished,
        final(room).winner == old(room).winner,
{
    retain_live(&mut room.players, now, ttl);
    proof {
        lemma_filter_unique_players(
            old(room).players@,
            |p: Player| age_of(now, p.last_active) < ttl as int,
        );
    }
    let new_len = room.players.len();
    let modn = if new_len == 0 {
        1
    } else {
        new_len
    };
    room.active_player = room.active_player % modn;
    let mut updates: Vec<crate::events::PlayerLeftUpdate> = Vec::new();
    let started = room.game_started;
    let next_turn = room.active_player;
    match &mut room.game_state {
        None => {},
        Some(gs) => {
            let gone = drop_colors_of_absent(gs, &room.players);
            let ghost gs_mid = *gs;
            if !started {
                let mut k: usize = 0;
                while k < gone.len()
                    invariant
                        k <= gone@.len(),
                        gs.wf(),
                        gs.players_colors == gs_mid.players_colors,
                        gs.moves == gs_mid.moves,
                        forall|r: int, c: int|
                            crate::board::in_bounds(r, c) ==> #[trigger] gs.cone_at(r, c) == (
                            if gs_mid.cone_at(r, c) matches Some(cc) && (exists|k2: int|
                                0 <= k2 < k && (#[trigger] gone@[k2]).1 == cc) {
                                None::<usize>
                            } else {
                                gs_mid.cone_at(r, c)
                            }),
                    decreases gone@.len() - k,
                {
                    let color = gone[k].1;
                    gs.clear_color_cones(color);
                    k += 1;
                }
            }
            let mut k: usize = 0;
            while k < gone.len()
                invariant
                    k <= gone@.len(),
                    updates@.len() == k,
                    forall|i: int|
                        0 <= i < k ==> ({
                            let u = #[trigger] updates@[i];
                            &&& u.name@ == "player_left"@
                            &&& u.user_id == gone@[i].0
                            &&& u.player_color == gone@[i].1
                            &&& u.room_id@ == room.room_id@
                            &&& u.next_turn == next_turn
                            &&& u.remove_cones == !started
                        }),
                decreases gone@.len() - k,
            {
                let (uid, color) = gone[k];
                updates.push(
                    crate::events::PlayerLeftUpdate::new(
                        uid,
                        room.room_id.clone(),
                        next_turn,
                        !started,
                        color,
                    ),
                );
                k += 1;
            }
        },
    }
    updates
}

/// Whether every seat is marked ready.
fn all_players_ready(players: &Vec<Player>) -> (b: bool)
    ensures
        b == (forall|i: int| 0 <= i < players@.len() ==> (#[trigger] players@[i]).ready),
{
    let mut i: usize = 0;
    while i < players.len()
        invariant
            i <= players@.len(),
            forall|j: int| 0 <= j < i ==> (#[trigger] players@[j]).ready,
        decreases players@.len() - i,
    {
        if !players[i].ready {
            return false;
        }
        i += 1;
    }
    true
}

/// Whether the seat of `user_id` is marked ready.
fn ready_seat_of(players: &Vec<Player>, user_id: usize) -> (b: bool)
    ensures
        b == (exists|i: int|
            0 <= i < players@.len() && (#[trigger] players@[i]).user_id == user_id
                && players@[i].ready),
{
    let mut i: usize = 0;
    while i < players.len()
        invariant
            i <= players@.len(),
            forall|j: int|
                0 <= j < i ==> !((#[trigger] players@[j]).user_id == user_id
                    && players@[j].ready),
        decreases players@.len() - i,
    {
        let p = &players[i];
        if p.user_id == user_id && p.ready {
            proof {
                assert(players@[i as int].user_id == user_id && players@[i as int].ready);
            }
            return true;
        }
        i += 1;
    }
    false
}

/// The conditions under which a color change is carried out: the room is in
/// the lobby, the caller has not readied up, the color is a player color no
/// other player holds, and its home triangle holds nothing but the caller's
/// own cones.
pub open spec fn spec_color_change_ok(
    room: RoomHandle,
    user_id: usize,
    request: crate::model::UpdateRoomStateRequest,
) -> bool {
    &&& !room.game_started
    &&& !player_is_ready(room, user_id)
    &&& request.new_color matches Some(nc)
    &&& 0 < request.new_color->0 < 7
    &&& room.game_state matches Some(gs)
    &&& !room.game_state->0.color_used_by_other(user_id, request.new_color->0)
    &&& room.game_state->0.home_free_or_mine(user_id, request.new_color->0)
}

/// Applies a lifecycle request to the room. `Start` needs the owner and a
/// fully ready lobby and arms the move deadline; `Stop` needs the owner;
/// `ColorChange` re-seats the caller on the requested color under
/// `spec_color_change_ok`; `Leave` unseats the caller, in the lobby freeing
/// their color and cones. The returned event, if any, is broadcast.
pub fn update_room_state(
    room: &mut RoomHandle,
    user_id: usize,
    request: &crate::model::UpdateRoomStateRequest,
) -> (res: (Option<RoomEvent>, TimerAction))
    requires
        old(room).wf(),
    ensures
        final(room).wf(),
        match request.update_type {
            crate::model::UpdateRoomType::Start => ({
                let ok = old(room).created_by == user_id && all_ready(*old(room));
                &&& (!ok ==> *final(room) == *old(room) && res.0 is None && res.1
                    == TimerAction::Keep)
                &&& (ok ==> ({
                    &&& *final(room) == (RoomHandle { game_started: true, ..*old(room) })
                    &&& res.1 == TimerAction::Arm
                    &&& res.0 matches Some(ev)
                    &&& res.0->0 matches RoomEvent::RoomState(u) && u.name@
                        == "room_state_update"@ && u.room.id@ == old(room).room_id@
                        && u.room.game_started
                }))
            }),
            crate::model::UpdateRoomType::Stop => ({
                let ok = old(room).created_by == user_id;
                &&& (!ok ==> *final(room) == *old(room) && res.0 is None && res.1
                    == TimerAction::Keep)
                &&& (ok ==> ({
                    &&& *final(room) == (RoomHandle { game_started: false, ..*old(room) })
                    &&& res.1 == TimerAction::Keep
                    &&& res.0 matches Some(ev)
                    &&& res.0->0 matches RoomEvent::RoomState(u) && u.name@
                        == "room_state_update"@ && u.room.id@ == old(room).room_id@
                        && !u.room.game_started
                }))
            }),
            crate::model::UpdateRoomType::ColorChange => ({
                let ok = spec_color_change_ok(*old(room), user_id, *request);
                &&& (!ok ==> *final(room) == *old(room) && res.0 is None && res.1
                    == TimerAction::Keep)
                &&& (ok ==> ({
                    let nc = request.new_color->0;
                    let gs0 = old(room).game_state->0;
                    let gs1 = final(room).game_state->0;
                    &&& final(room).game_state is Some
                    &&& (forall|r: int, c: int|
                        crate::board::in_bounds(r, c) ==> #[trigger] gs1.cone_at(r, c) == (
                        if crate::board::home_color(r, c) == nc {
                            Some(nc)
                        } else if gs0.player_color(user_id) matches Some(c0) && gs0.cone_at(r, c)
                            == Some(c0) {
                            None::<usize>
                        } else {
                            gs0.cone_at(r, c)
                        }))
                    &&& gs1.player_color(user_id) == Some(nc)
                    &&& (forall|u2: usize|
                        u2 != user_id ==> gs1.player_color(u2) == gs0.player_color(u2))
                    &&& gs1.moves == gs0.moves
                    &&& final(room).players == old(room).players
                    &&& final(room).game_started == old(room).game_started
                    &&& final(room).active_player == old(room).active_player
                    &&& res.1 == TimerAction::Keep
                    &&& res.0 matches Some(ev)
                    &&& res.0->0 matches RoomEvent::Colors(u) && u.name@ == "game_state"@
                        && u.room_id@ == old(room).room_id@ && u.game.same_cones(gs1)
                        && u.game.players_colors@ == gs1.players_colors@
                }))
            }),
            crate::model::UpdateRoomType::Leave => ({
                let freed = !old(room).game_started && old(room).game_state is Some;
                let c0opt = (if old(room).game_state is Some {
                    old(room).game_state->0.player_color(user_id)
                } else {
                    None
                });
                &&& final(room).players@ == old(room).players@.filter(
                    |p: Player| p.user_id != user_id,
                )
                &&& final(room).active_player == old(room).active_player as int % (
                if final(room).players@.len() == 0 {
                    1int
                } else {
                    final(room).players@.len() as int
                })
                &&& (old(room).game_state is None ==> final(room).game_state is None)
                &&& (old(room).game_started ==> final(room).game_state == old(room).game_state)
                &&& (freed ==> ({
                    let gs0 = old(room).game_state->0;
                    let gs1 = final(room).game_state->0;
                    &&& final(room).game_state is Some
                    &&& gs1.player_color(user_id) is None
                    &&& (forall|u2: usize|
                        u2 != user_id ==> gs1.player_color(u2) == gs0.player_color(u2))
                    &&& (c0opt matches Some(c0) ==> (forall|r: int, c: int|
                        crate::board::in_bounds(r, c) ==> #[trigger] gs1.cone_at(r, c) == (
                        if gs0.cone_at(r, c) == Some(c0) {
                            None::<usize>
                        } else {
                            gs0.cone_at(r, c)
                        })))
                    &&& (c0opt is None ==> gs1.cones == gs0.cones)
                    &&& gs1.moves == gs0.moves
                }))
                &&& final(room).game_started == old(room).game_started
                &&& res.1 == TimerAction::Keep
                &&& res.0 matches Some(ev)
                &&& res.0->0 matches RoomEvent::Left(u) && u.name@ == "player_left"@ && u.user_id
                    == user_id && u.room_id@ == old(room).room_id@ && u.next_turn == final(room).active_player
                    && u.remove_cones == !old(room).game_started && u.player_color == (
                if freed && c0opt is Some {
                    c0opt->0
                } else {
                    crate::board::NEUTRAL
                })
            }),
        },
{
    match request.update_type {
        crate::model::UpdateRoomType::Start => {
            if room.created_by == user_id && all_players_ready(&room.players) {
                room.game_started = true;
                let ev = crate::events::RoomStateUpdate::new(room);
                (Some(RoomEvent::RoomState(ev)), TimerAction::Arm)
            } else {
                (None, TimerAction::Keep)
            }
        },
        crate::model::UpdateRoomType::Stop => {
            if room.created_by == user_id {
                room.game_started = false;
                let ev = crate::events::RoomStateUpdate::new(room);
                (Some(RoomEvent::RoomState(ev)), TimerAction::Keep)
            } else {
                (None, TimerAction::Keep)
            }
        },
        crate::model::UpdateRoomType::ColorChange => {
            if room.game_started {
                return (None, TimerAction::Keep);
            }
            if ready_seat_of(&room.players, user_id) {
                return (None, TimerAction::Keep);
            }
            let nc = match request.new_color {
                None => {
                    return (None, TimerAction::Keep);
                },
                Some(c) => c,
            };
            if nc == 0 || nc >= 7 {
                return (None, TimerAction::Keep);
            }
            match &mut room.game_state {
                None => (None, TimerAction::Keep),
                Some(gs) => {
                    if gs.is_color_used_by_other(user_id, nc) {
                        return (None, TimerAction::Keep);
                    }
                    if !gs.check_home_free_or_mine(user_id, nc) {
                        return (None, TimerAction::Keep);
                    }
                    gs.remove_cones(user_id);
                    match gs.add_cones(user_id, nc) {
                        Ok(_) => {},
                        Err(_) => {
                            proof {
                                assert(false);
                            }
                        },
                    }
                    let snap = gs.duplicate();
                    let ev = crate::events::GameColorsUpdate::new(room.room_id.as_str(), snap);
                    (Some(RoomEvent::Colors(ev)), TimerAction::Keep)
                },
            }
        },
        crate::model::UpdateRoomType::Leave => {
            let started = room.game_started;
            let mut color: usize = crate::board::NEUTRAL;
            if !started {
                match &mut room.game_state {
                    Some(gs) => {
                        color = match gs.get_player_color(user_id) {
                            Some(c) => c,
                            None => crate::board::NEUTRAL,
                        };
                        gs.remove_cones(user_id);
                    },
                    None => {},
                }
            }
            remove_from_roster(&mut room.players, user_id);
            proof {
                lemma_filter_unique_players(
                    old(room).players@,
                    |p: Player| p.user_id != user_id,
                );
            }
            let new_len = room.players.len();
            let modn = if new_len == 0 {
                1
            } else {
                new_len
            };
            room.active_player = room.active_player % modn;
            let ev = crate::events::PlayerLeftUpdate::new(
                user_id,
                room.room_id.clone(),
                room.active_player,
                !started,
                color,
            );
            (Some(RoomEvent::Left(ev)), TimerAction::Keep)
        },
    }
}

/// Validates a move request body against the room's board without applying
/// it: accepted exactly when the body is a list of pairs that forms a valid
/// path. The room must hold a game state.
pub fn validate_path_request(room: &RoomHandle, body: &Vec<Vec<i32>>) -> (res: Result<bool, usize>)
    requires
        room.wf(),
    ensures
        res is Ok <==> (room.game_state is Some && path_shape_ok(body@)
            && room.game_state->0.spec_valid_path(rows_to_pairs(body@))),
        res matches Ok(b) ==> b == true,
{
    let gs = match &room.game_state {
        None => {
            return Err(0);
        },
        Some(gs) => gs,
    };
    if body.len() < 2 {
        return Err(0);
    }
    let mut transformed: Vec<(i32, i32)> = Vec::new();
    let mut i: usize = 0;
    while i < body.len()
        invariant
            i <= body@.len(),
            room.wf(),
            gs == room.game_state->0,
            room.game_state is Some,
            forall|j: int| 0 <= j < i ==> (#[trigger] body@[j])@.len() == 2,
            transformed@.len() == i,
            forall|j: int|
                0 <= j < i ==> ((#[trigger] transformed@[j]).0 as int, transformed@[j].1 as int)
                    == rows_to_pairs(body@)[j],
        decreases body@.len() - i,
    {
        let row = &body[i];
        if row.len() != 2 {
            return Err(0);
        }
        transformed.push((row[0], row[1]));
        i += 1;
    }
    proof {
        assert(crate::game::path_ints(transformed@) =~= rows_to_pairs(body@));
    }
    match gs.validate_path(&transformed) {
        Ok(b) => Ok(b),
        Err(e) => Err(e),
    }
}

/// The roster as clients list it: each seat with its color. Callable once
/// every seated player has been dealt a color, as joining guarantees.
pub fn player_descs(room: &RoomHandle) -> (v: Vec<crate::model::PlayerDesc>)
    requires
        room.wf(),
        room.game_state is Some,
        forall|i: int|
            0 <= i < room.players@.len() ==> room.game_state->0.player_color(
                (#[trigger] room.players@[i]).user_id,
            ) is Some,
    ensures
        v@.len() == room.players@.len(),
        forall|i: int|
            0 <= i < v@.len() ==> ({
                let p = room.players@[i];
                let d = #[trigger] v@[i];
                &&& d.user_id == p.user_id
                &&& d.ready == p.ready
                &&& (p.name matches Some(n) ==> d.name@ == n@)
                &&& (p.name is None ==> d.name@ == "Player"@)
                &&& Some(d.color) == room.game_state->0.player_color(p.user_id)
            }),
{
    let mut v: Vec<crate::model::PlayerDesc> = Vec::new();
    match &room.game_state {
        None => {
            proof {
                assert(false);
            }
            v
        },
        Some(gs) => {
            let n = room.players.len();
            let mut i: usize = 0;
            while i < n
                invariant
                    i <= n,
                    n == room.players@.len(),
                    gs == room.game_state->0,
                    room.game_state is Some,
                    forall|j: int|
                        0 <= j < n ==> room.game_state->0.player_color(
                            (#[trigger] room.players@[j]).user_id,
                        ) is Some,
                    v@.len() == i,
                    forall|j: int|
                        0 <= j < i ==> ({
                            let p = room.players@[j];
                            let d = #[trigger] v@[j];
                            &&& d.user_id == p.user_id
                            &&& d.ready == p.ready
                            &&& (p.name matches Some(nm) ==> d.name@ == nm@)
                            &&& (p.name is None ==> d.name@ == "Player"@)
                            &&& Some(d.color) == room.game_state->0.player_color(p.user_id)
                        }),
                decreases n - i,
            {
                let p = &room.players[i];
                let color = match gs.get_player_color(p.user_id) {
                    Some(c) => c,
                    None => {
                        proof {
                            assert(false);
                        }
                        return v;
                    },
                };
                let d = crate::model::PlayerDesc::from_player(p, color);
                v.push(d);
                i += 1;
            }
            v
        },
    }
}

/// Room listings ordered newest first, by selection on creation time. The
/// result holds exactly the given listings.
pub fn sorted_room_descs(rooms: Vec<RoomDesc>) -> (out: Vec<RoomDesc>)
    ensures
        out@.to_multiset() == rooms@.to_multiset(),
        out@.len() == rooms@.len(),
        forall|i: int, j: int|
            0 <= i < j < out@.len() ==> (#[trigger] out@[i]).created_time >= (
            #[trigger] out@[j]).created_time,
{
    proof {
        broadcast use vstd::seq_lib::group_to_multiset_ensures;

    }
    let ghost orig = rooms@;
    let mut rest = rooms;
    let mut out: Vec<RoomDesc> = Vec::new();
    while rest.len() > 0
        invariant
            out@.to_multiset().add(rest@.to_multiset()) =~= orig.to_multiset(),
            out@.len() + rest@.len() == orig.len(),
            forall|i: int, j: int|
                0 <= i < j < out@.len() ==> (#[trigger] out@[i]).created_time >= (
                #[trigger] out@[j]).created_time,
            forall|i: int, j: int|
                0 <= i < out@.len() && 0 <= j < rest@.len() ==> (#[trigger] out@[i]).created_time
                    >= (#[trigger] rest@[j]).created_time,
        decreases rest@.len(),
    {
        proof {
            broadcast use vstd::seq_lib::group_to_multiset_ensures;

        }
        let n = rest.len();
        let mut best: usize = 0;
        let mut k: usize = 1;
        while k < n
            invariant
                n == rest@.len(),
                best < k <= n,
                forall|j: int|
                    0 <= j < k ==> (#[trigger] rest@[j]).created_time <= rest@[
                        best as int].created_time,
            decreases n - k,
        {
            if rest[k].created_time > rest[best].created_time {
                best = k;
            }
            k += 1;
        }
        let ghost rest0 = rest@;
        let ghost out0 = out@;
        let picked = rest.remove(best);
        proof {
            assert(picked == rest0[best as int]);
            assert(rest0.remove(best as int).to_multiset() =~= rest0.to_multiset().remove(picked));
            assert(rest0.to_multiset().count(picked) > 0);
        }
        out.push(picked);
        proof {
            assert(out@ == out0.push(picked));
            assert(out0.push(picked).to_multiset() =~= out0.to_multiset().insert(picked));
            assert(out@.to_multiset().add(rest@.to_multiset()) =~= out0.to_multiset().add(
                rest0.to_multiset(),
            ));
            assert(forall|j: int|
                0 <= j < rest@.len() ==> (#[trigger] rest@[j]).created_time
                    <= picked.created_time);
        }
    }
    proof {
        assert(rest@.to_multiset() =~= Multiset::<RoomDesc>::empty());
        assert(out@.to_multiset().add(Multiset::<RoomDesc>::empty()) =~= out@.to_multiset());
    }
    out
}

} // verus!
