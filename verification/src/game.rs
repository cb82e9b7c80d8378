//! The per-room game engine: cone placements on the board, the player-to-color
//! assignment, the bounded history of recent moves, and the path validator.

use vstd::prelude::*;

use crate::board::get_complementary;
use crate::board::home_color;
use crate::board::in_bounds;
use crate::board::point_count;
use crate::board::point_count_at;
use crate::board::spec_complement;

verus! {

/// The mutable state of one running game.
///
/// `cones` is the board: one slot per cell, holding the color of the cone on
/// that cell, if any. `players_colors` maps each seated user to the color they
/// play. `moves` is the bounded history of the most recent moves, each a
/// `(color, path)` pair, oldest first.
pub struct GameState {
    pub cones: Vec<Vec<Option<usize>>>,
    pub players_colors: Vec<(usize, usize)>,
    pub moves: Vec<(usize, Vec<(usize, usize)>)>,
}

/// The color assigned to `user` by an assignment sequence: the first entry
/// whose key matches, if any.
pub open spec fn lookup_color(s: Seq<(usize, usize)>, user: usize) -> Option<usize>
    decreases s.len(),
{
    if s.len() == 0 {
        None
    } else if s[0].0 == user {
        Some(s[0].1)
    } else {
        lookup_color(s.drop_first(), user)
    }
}

/// A signed coordinate path, as mathematical integer pairs.
pub open spec fn path_ints(s: Seq<(i32, i32)>) -> Seq<(int, int)> {
    s.map_values(|p: (i32, i32)| (p.0 as int, p.1 as int))
}

/// `post` is `pre` after a move along `path`: the cone of the path's first
/// cell now stands on its last cell, the move (as the cone's color and the
/// path) was appended to the history — trimmed to capacity beforehand — and
/// the seating is unchanged.
pub open spec fn spec_after_move(pre: GameState, post: GameState, path: Seq<(int, int)>) -> bool {
    let p0 = path[0];
    let pl = path[path.len() - 1];
    let cl = pre.cone_at(p0.0, p0.1)->0;
    &&& (forall|r: int, c: int|
        in_bounds(r, c) ==> #[trigger] post.cone_at(r, c) == (if r == pl.0 && c == pl.1 {
            Some(cl)
        } else if r == p0.0 && c == p0.1 {
            None::<usize>
        } else {
            pre.cone_at(r, c)
        }))
    &&& post.players_colors@ == pre.players_colors@
    &&& post.moves@.len() == (if pre.moves@.len() >= 10 {
        10int
    } else {
        pre.moves@.len() as int + 1
    })
    &&& post.moves@.drop_last() == (if pre.moves@.len() >= 10 {
        pre.moves@.drop_first()
    } else {
        pre.moves@
    })
    &&& post.moves@.last().0 == cl
    &&& post.moves@.last().1@.len() == path.len()
    &&& (forall|i: int|
        0 <= i < path.len() ==> ((#[trigger] post.moves@.last().1@[i]).0 as int,
        post.moves@.last().1@[i].1 as int) == path[i])
}

/// Whether `v` holds the coordinate pair `p`.
fn vec_contains_pair(v: &Vec<(usize, usize)>, p: (usize, usize)) -> (b: bool)
    ensures
        b == v@.contains(p),
{
    let mut i: usize = 0;
    while i < v.len()
        invariant
            i <= v@.len(),
            forall|j: int| 0 <= j < i ==> v@[j] != p,
        decreases v@.len() - i,
    {
        if v[i].0 == p.0 && v[i].1 == p.1 {
            proof {
                assert(v@[i as int] == p);
            }
            return true;
        }
        i += 1;
    }
    false
}

/// When the key is on no entry, the lookup comes up empty.
proof fn lemma_lookup_absent(s: Seq<(usize, usize)>, u: usize)
    requires
        forall|j: int| 0 <= j < s.len() ==> (#[trigger] s[j]).0 != u,
    ensures
        lookup_color(s, u) is None,
    decreases s.len(),
{
    if s.len() > 0 {
        lemma_lookup_absent(s.drop_first(), u);
    }
}

/// When the lookup comes up empty, the key is on no entry.
proof fn lemma_lookup_none(s: Seq<(usize, usize)>, u: usize)
    requires
        lookup_color(s, u) is None,
    ensures
        forall|j: int| 0 <= j < s.len() ==> (#[trigger] s[j]).0 != u,
    decreases s.len(),
{
    if s.len() > 0 {
        lemma_lookup_none(s.drop_first(), u);
        assert forall|j: int| 0 <= j < s.len() implies (#[trigger] s[j]).0 != u by {
            if j > 0 {
                assert(s.drop_first()[j - 1] == s[j]);
            }
        }
    }
}

/// How updating the first entry of a key changes lookups.
proof fn lemma_lookup_update(s: Seq<(usize, usize)>, i: int, x: (usize, usize))
    requires
        0 <= i < s.len(),
        s[i].0 == x.0,
        forall|j: int| 0 <= j < i ==> (#[trigger] s[j]).0 != x.0,
    ensures
        lookup_color(s.update(i, x), x.0) == Some(x.1),
        forall|u: usize| u != x.0 ==> lookup_color(s.update(i, x), u) == lookup_color(s, u),
    decreases s.len(),
{
    if i == 0 {
        assert(s.update(0, x)[0] == x);
        assert(s.update(0, x).drop_first() =~= s.drop_first());
        assert forall|u: usize| u != x.0 implies lookup_color(s.update(0, x), u) == lookup_color(
            s,
            u,
        ) by {
            assert(lookup_color(s.update(0, x), u) == lookup_color(s.drop_first(), u));
            assert(lookup_color(s, u) == lookup_color(s.drop_first(), u));
        }
    } else {
        assert(s.update(i, x)[0] == s[0]);
        assert(s.update(i, x).drop_first() =~= s.drop_first().update(i - 1, x));
        lemma_lookup_update(s.drop_first(), i - 1, x);
        assert(lookup_color(s.update(i, x), x.0) == Some(x.1));
        assert forall|u: usize| u != x.0 implies lookup_color(s.update(i, x), u) == lookup_color(
            s,
            u,
        ) by {
            if s[0].0 == u {
            } else {
                assert(lookup_color(s.drop_first().update(i - 1, x), u) == lookup_color(
                    s.drop_first(),
                    u,
                ));
            }
        }
    }
}

/// How appending an entry changes lookups.
proof fn lemma_lookup_push(s: Seq<(usize, usize)>, x: (usize, usize))
    ensures
        forall|u: usize| #[trigger] lookup_color(s.push(x), u) == (if lookup_color(s, u) is Some {
            lookup_color(s, u)
        } else if x.0 == u {
            Some(x.1)
        } else {
            None::<usize>
        }),
    decreases s.len(),
{
    if s.len() == 0 {
        assert forall|u: usize| #[trigger] lookup_color(s.push(x), u) == (if lookup_color(s, u)
            is Some {
            lookup_color(s, u)
        } else if x.0 == u {
            Some(x.1)
        } else {
            None::<usize>
        }) by {
            assert(lookup_color(s, u) is None);
            assert(s.push(x)[0] == x);
            assert(s.push(x).drop_first() =~= Seq::<(usize, usize)>::empty());
            assert(lookup_color(Seq::<(usize, usize)>::empty(), u) is None);
        }
    } else {
        assert(s.push(x)[0] == s[0]);
        assert(s.push(x).drop_first() =~= s.drop_first().push(x));
        lemma_lookup_push(s.drop_first(), x);
        assert forall|u: usize| #[trigger] lookup_color(s.push(x), u) == (if lookup_color(s, u)
            is Some {
            lookup_color(s, u)
        } else if x.0 == u {
            Some(x.1)
        } else {
            None::<usize>
        }) by {
            if s[0].0 == u {
            } else {
                assert(lookup_color(s.push(x), u) == lookup_color(s.drop_first().push(x), u));
                assert(lookup_color(s, u) == lookup_color(s.drop_first(), u));
            }
        }
    }
}

/// How removing the only entry of a key changes lookups.
proof fn lemma_lookup_remove(s: Seq<(usize, usize)>, i: int)
    requires
        0 <= i < s.len(),
        forall|j: int| 0 <= j < s.len() && j != i ==> (#[trigger] s[j]).0 != s[i].0,
    ensures
        lookup_color(s.remove(i), s[i].0) is None,
        forall|u: usize| u != s[i].0 ==> lookup_color(s.remove(i), u) == lookup_color(s, u),
    decreases s.len(),
{
    if i == 0 {
        assert(s.remove(0) =~= s.drop_first());
        lemma_lookup_absent(s.drop_first(), s[0].0);
        assert forall|u: usize| u != s[0].0 implies lookup_color(s.remove(0), u) == lookup_color(
            s,
            u,
        ) by {
            assert(lookup_color(s, u) == lookup_color(s.drop_first(), u));
        }
    } else {
        assert(s.remove(i)[0] == s[0]);
        assert(s.remove(i).drop_first() =~= s.drop_first().remove(i - 1));
        lemma_lookup_remove(s.drop_first(), i - 1);
        assert(s.drop_first()[i - 1] == s[i]);
        assert(lookup_color(s.remove(i), s[i].0) is None);
        assert forall|u: usize| u != s[i].0 implies lookup_color(s.remove(i), u) == lookup_color(
            s,
            u,
        ) by {
            if s[0].0 == u {
            } else {
                assert(lookup_color(s.remove(i), u) == lookup_color(
                    s.drop_first().remove(i - 1),
                    u,
                ));
                assert(lookup_color(s, u) == lookup_color(s.drop_first(), u));
            }
        }
    }
}

impl GameState {
    /// The board has 21 rows and each row exactly its `point_count` cells.
    pub open spec fn grid_wf(self) -> bool {
        &&& self.cones@.len() == 21
        &&& forall|r: int| 0 <= r < 21 ==> (#[trigger] self.cones@[r])@.len() == point_count(r)
    }

    /// No user holds two entries in the color assignment.
    pub open spec fn colors_wf(self) -> bool {
        forall|i: int, j: int|
            0 <= i < j < self.players_colors@.len() ==> (#[trigger] self.players_colors@[i]).0 != (
            #[trigger] self.players_colors@[j]).0
    }

    /// The recent-move history never exceeds its capacity of 10.
    pub open spec fn moves_wf(self) -> bool {
        self.moves@.len() <= 10
    }

    pub open spec fn wf(self) -> bool {
        self.grid_wf() && self.colors_wf() && self.moves_wf()
    }

    /// The cone on cell `(row, col)`, if any.
    pub open spec fn cone_at(self, row: int, col: int) -> Option<usize> {
        self.cones@[row]@[col]
    }

    /// Whether an in-bounds cell holds a cone.
    pub open spec fn spec_occupied(self, row: int, col: int) -> bool {
        in_bounds(row, col) && self.cone_at(row, col) is Some
    }

    pub open spec fn player_color(self, user: usize) -> Option<usize> {
        lookup_color(self.players_colors@, user)
    }

    /// Both states place the same cones on every cell of the board.
    pub open spec fn same_cones(self, other: GameState) -> bool {
        forall|r: int, c: int| in_bounds(r, c) ==> self.cone_at(r, c) == #[trigger] other.cone_at(r, c)
    }

    /// An empty board with no seated players and no move history.
    pub fn new() -> (gs: GameState)
        ensures
            gs.wf(),
            gs.players_colors@ =~= Seq::<(usize, usize)>::empty(),
            gs.moves@ =~= Seq::<(usize, Vec<(usize, usize)>)>::empty(),
            forall|r: int, c: int| in_bounds(r, c) ==> #[trigger] gs.cone_at(r, c) is None,
    {
        let mut cones: Vec<Vec<Option<usize>>> = Vec::new();
        let mut r: usize = 0;
        while r < 21
            invariant
                r <= 21,
                cones@.len() == r,
                forall|i: int| 0 <= i < r ==> (#[trigger] cones@[i])@.len() == point_count(i),
                forall|i: int, c: int|
                    0 <= i < r && 0 <= c < point_count(i) ==> (#[trigger] cones@[i]@[c]) is None,
            decreases 21 - r,
        {
            let n = point_count_at(r);
            let mut row: Vec<Option<usize>> = Vec::new();
            let mut c: usize = 0;
            while c < n
                invariant
                    c <= n,
                    row@.len() == c,
                    forall|k: int| 0 <= k < c ==> row@[k] is None,
                decreases n - c,
            {
                row.push(None);
                c += 1;
            }
            cones.push(row);
            r += 1;
        }
        GameState { cones, players_colors: Vec::new(), moves: Vec::new() }
    }

    /// Checks that `(row, position)` addresses a cell of the board and returns
    /// it as an unsigned pair.
    pub fn validate_dimensions(&self, row: i32, position: i32) -> (res: Result<(usize, usize), usize>)
        ensures
            res is Ok <==> in_bounds(row as int, position as int),
            res matches Ok(p) ==> p.0 == row as int && p.1 == position as int,
            res matches Err(e) ==> e == 0,
    {
        if row < 0 || row > 20 {
            return Err(0);
        }
        let r = row as usize;
        let n = point_count_at(r);
        if position < 0 || position >= n as i32 {
            return Err(0);
        }
        Ok((r, position as usize))
    }

    /// The home color of the cell, or an error when out of bounds.
    pub fn get_board_color(&self, row: &usize, col: &usize) -> (res: Result<usize, usize>)
        ensures
            res is Ok <==> in_bounds(*row as int, *col as int),
            res matches Ok(c) ==> c == home_color(*row as int, *col as int),
            res matches Err(e) ==> e == 0,
    {
        if *row > 20 {
            return Err(0);
        }
        let n = point_count_at(*row);
        if *col >= n {
            return Err(0);
        }
        Ok(crate::board::board_color_at(*row, *col))
    }

    /// Whether the cell holds a cone, or an error when out of bounds.
    pub fn is_occupied(&self, row: i32, position: i32) -> (res: Result<bool, usize>)
        requires
            self.grid_wf(),
        ensures
            res is Ok <==> in_bounds(row as int, position as int),
            res matches Ok(b) ==> b == self.spec_occupied(row as int, position as int),
            res matches Err(e) ==> e == 0,
    {
        let (r, c) = self.validate_dimensions(row, position)?;
        Ok(self.cones[r][c].is_some())
    }

    /// Places a cone of `color` on an empty in-bounds cell; rejects an
    /// out-of-bounds cell and an occupied cell, leaving the state unchanged.
    pub fn add_cone(&mut self, row: i32, col: i32, color: usize) -> (res: Result<bool, usize>)
        requires
            old(self).wf(),
        ensures
            final(self).wf(),
            res is Ok <==> in_bounds(row as int, col as int) && !old(self).spec_occupied(
                row as int,
                col as int,
            ),
            res matches Ok(b) ==> b == true,
            res matches Err(e) ==> e == 0,
            res is Err ==> *final(self) == *old(self),
            final(self).players_colors@ == old(self).players_colors@,
            final(self).moves@ == old(self).moves@,
            res is Ok ==> forall|r: int, c: int|
                in_bounds(r, c) ==> #[trigger] final(self).cone_at(r, c) == (if r == row as int && c
                    == col as int {
                    Some(color)
                } else {
                    old(self).cone_at(r, c)
                }),
    {
        let (r, c) = self.validate_dimensions(row, col)?;
        if self.cones[r][c].is_some() {
            return Err(0);
        }
        self.cones[r][c] = Some(color);
        Ok(true)
    }

    /// Removes the cone on the given cell, if any; rejects an out-of-bounds cell.
    pub fn remove_cone(&mut self, row: i32, col: i32) -> (res: Result<bool, usize>)
        requires
            old(self).wf(),
        ensures
            final(self).wf(),
            res is Ok <==> in_bounds(row as int, col as int),
            res matches Ok(b) ==> b == true,
            res matches Err(e) ==> e == 0,
            res is Err ==> *final(self) == *old(self),
            final(self).players_colors@ == old(self).players_colors@,
            final(self).moves@ == old(self).moves@,
            res is Ok ==> forall|r: int, c: int|
                in_bounds(r, c) ==> #[trigger] final(self).cone_at(r, c) == (if r == row as int && c
                    == col as int {
                    None::<usize>
                } else {
                    old(self).cone_at(r, c)
                }),
    {
        let (r, c) = self.validate_dimensions(row, col)?;
        self.cones[r][c] = None;
        Ok(true)
    }

    /// Accepts exactly when the cell is in bounds and holds a cone of `color`.
    pub fn validate_cone_position(&self, row: i32, position: i32, color: usize) -> (res: Result<
        bool,
        usize,
    >)
        requires
            self.grid_wf(),
        ensures
            res is Ok <==> in_bounds(row as int, position as int) && self.cone_at(
                row as int,
                position as int,
            ) == Some(color),
            res matches Ok(b) ==> b == true,
            res matches Err(e) ==> e == 0,
    {
        let (r, c) = self.validate_dimensions(row, position)?;
        match self.cones[r][c] {
            Some(cc) => {
                if cc != color {
                    return Err(0);
                }
            },
            None => {
                return Err(0);
            },
        }
        Ok(true)
    }

    /// The cone on an in-bounds cell.
    pub fn get_cone(&self, row: usize, col: usize) -> (res: Option<usize>)
        requires
            self.grid_wf(),
            in_bounds(row as int, col as int),
        ensures
            res == self.cone_at(row as int, col as int),
    {
        self.cones[row][col]
    }

    /// Maps a row-width difference to the two diagonal column offsets.
    pub fn calculate_shift(up_shift: i32, incr: bool) -> (r: (i32, i32))
        requires
            -100 <= up_shift <= 100,
        ensures
            r.0 == crate::board::spec_shift(up_shift as int, incr).0,
            r.1 == crate::board::spec_shift(up_shift as int, incr).1,
    {
        let a: i32 = if up_shift < 0 {
            -up_shift
        } else {
            up_shift
        };
        let shift: i32 = if a > 1 {
            (if up_shift < 0 {
                -1
            } else {
                1
            }) * ((a - 1) / 2)
        } else {
            up_shift
        };
        if shift == -1 {
            (shift, shift + 1)
        } else if shift == 1 {
            (shift, shift - 1)
        } else if shift == -5 {
            if incr {
                (shift, shift + 1)
            } else {
                (shift, shift - 1)
            }
        } else if shift == 5 {
            if incr {
                (shift, shift + 1)
            } else {
                (shift, shift - 1)
            }
        } else {
            (-1, -1)
        }
    }

    /// The set of neighbors of `(row, col)`, as a duplicate-free vector; an
    /// error exactly when the cell is out of bounds.
    #[verifier::rlimit(60)]
    pub fn get_neighbors(&self, row: i32, col: i32) -> (res: Result<Vec<(usize, usize)>, usize>)
        ensures
            res is Ok <==> in_bounds(row as int, col as int),
            res matches Err(e) ==> e == 0,
            res matches Ok(v) ==> forall|p: (usize, usize)|
                #[trigger] v@.contains(p) <==> crate::board::spec_is_neighbor(
                    row as int,
                    col as int,
                    p.0 as int,
                    p.1 as int,
                ),
            res matches Ok(v) ==> forall|i: int, j: int| 0 <= i < j < v@.len() ==> v@[i] != v@[j],
    {
        let (vr, _) = self.validate_dimensions(row, col)?;
        let cur = point_count_at(vr) as i32;
        let up_shift: i32 = if row < 20 {
            point_count_at(vr + 1) as i32 - cur
        } else {
            1
        };
        let down_shift: i32 = if row > 0 {
            point_count_at(vr - 1) as i32 - cur
        } else {
            1
        };
        proof {
            broadcast use vstd::seq_lib::lemma_seq_contains_after_push;

            assert(up_shift == crate::board::up_delta(row as int));
            assert(down_shift == crate::board::down_delta(row as int));
        }
        let us = Self::calculate_shift(up_shift, row <= 10);
        let ds = Self::calculate_shift(down_shift, row >= 10);
        let down_ok = down_shift >= -1 && down_shift <= 1;
        let up_ok = up_shift >= -1 && up_shift <= 1;
        let ghost rr = row as int;
        let ghost cc = col as int;
        let ghost uss = crate::board::spec_shift(crate::board::up_delta(rr), rr <= 10);
        let ghost dss = crate::board::spec_shift(crate::board::down_delta(rr), rr >= 10);
        let mut result: Vec<(usize, usize)> = Vec::new();
        let ok1 = self.validate_dimensions(row, col - 1).is_ok();
        if ok1 {
            result.push((row as usize, (col - 1) as usize));
        }
        proof {
            assert(forall|p: (usize, usize)| #[trigger] result@.contains(p) <==> (ok1 && p.0 == rr
                && p.1 == cc - 1));
        }
        let ghost s1 = result@;
        let ok2 = self.validate_dimensions(row, col + 1).is_ok();
        if ok2 {
            result.push((row as usize, (col + 1) as usize));
        }
        proof {
            assert(forall|p: (usize, usize)| #[trigger] result@.contains(p) <==> (s1.contains(p) || (
            ok2 && p.0 == rr && p.1 == cc + 1)));
        }
        let ghost s2 = result@;
        let ok3 = self.validate_dimensions(row - 1, col + ds.0).is_ok() && (ds.0 != 0 || down_ok);
        if ok3 {
            result.push(((row - 1) as usize, (col + ds.0) as usize));
        }
        proof {
            assert(forall|p: (usize, usize)| #[trigger] result@.contains(p) <==> (s2.contains(p) || (
            ok3 && p.0 == rr - 1 && p.1 == cc + dss.0)));
        }
        let ghost s3 = result@;
        let ok4 = self.validate_dimensions(row - 1, col + ds.1).is_ok() && (ds.1 != 0 || down_ok);
        if ok4 {
            result.push(((row - 1) as usize, (col + ds.1) as usize));
        }
        proof {
            assert(forall|p: (usize, usize)| #[trigger] result@.contains(p) <==> (s3.contains(p) || (
            ok4 && p.0 == rr - 1 && p.1 == cc + dss.1)));
        }
        let ghost s4 = result@;
        let ok5 = self.validate_dimensions(row + 1, col + us.0).is_ok() && (us.0 != 0 || up_ok);
        if ok5 {
            result.push(((row + 1) as usize, (col + us.0) as usize));
        }
        proof {
            assert(forall|p: (usize, usize)| #[trigger] result@.contains(p) <==> (s4.contains(p) || (
            ok5 && p.0 == rr + 1 && p.1 == cc + uss.0)));
        }
        let ghost s5 = result@;
        let ok6 = self.validate_dimensions(row + 1, col + us.1).is_ok() && (us.1 != 0 || up_ok);
        if ok6 {
            result.push(((row + 1) as usize, (col + us.1) as usize));
        }
        proof {
            assert(forall|p: (usize, usize)| #[trigger] result@.contains(p) <==> (s5.contains(p) || (
            ok6 && p.0 == rr + 1 && p.1 == cc + uss.1)));
            assert forall|p: (usize, usize)| #[trigger] result@.contains(p)
                <==> crate::board::spec_is_neighbor(rr, cc, p.0 as int, p.1 as int) by {
                assert(result@.contains(p) <==> ((ok1 && p.0 == rr && p.1 == cc - 1) || (ok2 && p.0
                    == rr && p.1 == cc + 1) || (ok3 && p.0 == rr - 1 && p.1 == cc + dss.0) || (ok4
                    && p.0 == rr - 1 && p.1 == cc + dss.1) || (ok5 && p.0 == rr + 1 && p.1 == cc
                    + uss.0) || (ok6 && p.0 == rr + 1 && p.1 == cc + uss.1)));
            }
        }
        Ok(result)
    }

    /// Every cone of `color` stands on a cell whose home color is the
    /// complement of `color`: the winning condition for a player of `color`.
    pub open spec fn all_on_complement(self, color: usize) -> bool {
        forall|r: int, c: int|
            in_bounds(r, c) && #[trigger] self.cone_at(r, c) == Some(color) ==> home_color(r, c)
                == spec_complement(color)
    }

    /// Whether every home cell of `color` is free of cones.
    fn home_cells_free(&self, color: usize) -> (b: bool)
        requires
            self.grid_wf(),
        ensures
            b == (forall|r: int, c: int|
                in_bounds(r, c) && home_color(r, c) == color ==> #[trigger] self.cone_at(r, c)
                    is None),
    {
        let mut r: usize = 0;
        while r < 21
            invariant
                self.grid_wf(),
                r <= 21,
                forall|r2: int, c2: int|
                    0 <= r2 < r && 0 <= c2 < point_count(r2) && home_color(r2, c2)
                        == color ==> #[trigger] self.cone_at(r2, c2) is None,
            decreases 21 - r,
        {
            let n = point_count_at(r);
            let mut c: usize = 0;
            while c < n
                invariant
                    self.grid_wf(),
                    r < 21,
                    c <= n,
                    n == point_count(r as int),
                    forall|r2: int, c2: int|
                        0 <= r2 < r && 0 <= c2 < point_count(r2) && home_color(r2, c2)
                            == color ==> #[trigger] self.cone_at(r2, c2) is None,
                    forall|c2: int|
                        0 <= c2 < c && home_color(r as int, c2) == color ==> #[trigger] self.cone_at(
                            r as int,
                            c2,
                        ) is None,
                decreases n - c,
            {
                if crate::board::board_color_at(r, c) == color && self.cones[r][c].is_some() {
                    proof {
                        assert(in_bounds(r as int, c as int));
                        assert(self.cone_at(r as int, c as int) is Some);
                    }
                    return false;
                }
                c += 1;
            }
            r += 1;
        }
        true
    }

    /// Puts a cone of `color` on every home cell of `color`.
    fn fill_home_cells(&mut self, color: usize)
        requires
            old(self).grid_wf(),
        ensures
            final(self).grid_wf(),
            final(self).players_colors == old(self).players_colors,
            final(self).moves == old(self).moves,
            forall|r: int, c: int|
                in_bounds(r, c) ==> #[trigger] final(self).cone_at(r, c) == (if home_color(r, c)
                    == color {
                    Some(color)
                } else {
                    old(self).cone_at(r, c)
                }),
    {
        let ghost orig = *self;
        let mut r: usize = 0;
        while r < 21
            invariant
                self.grid_wf(),
                r <= 21,
                orig == *old(self),
                self.players_colors == orig.players_colors,
                self.moves == orig.moves,
                forall|r2: int, c2: int|
                    0 <= r2 < r && 0 <= c2 < point_count(r2) ==> #[trigger] self.cone_at(r2, c2)
                        == (if home_color(r2, c2) == color {
                        Some(color)
                    } else {
                        orig.cone_at(r2, c2)
                    }),
                forall|r2: int, c2: int|
                    r <= r2 < 21 && 0 <= c2 < point_count(r2) ==> #[trigger] self.cone_at(r2, c2)
                        == orig.cone_at(r2, c2),
            decreases 21 - r,
        {
            let n = point_count_at(r);
            let mut c: usize = 0;
            while c < n
                invariant
                    self.grid_wf(),
                    r < 21,
                    c <= n,
                    n == point_count(r as int),
                    orig == *old(self),
                    self.players_colors == orig.players_colors,
                    self.moves == orig.moves,
                    forall|r2: int, c2: int|
                        0 <= r2 < r && 0 <= c2 < point_count(r2) ==> #[trigger] self.cone_at(
                            r2,
                            c2,
                        ) == (if home_color(r2, c2) == color {
                            Some(color)
                        } else {
                            orig.cone_at(r2, c2)
                        }),
                    forall|c2: int|
                        0 <= c2 < c ==> #[trigger] self.cone_at(r as int, c2) == (if home_color(
                            r as int,
                            c2,
                        ) == color {
                            Some(color)
                        } else {
                            orig.cone_at(r as int, c2)
                        }),
                    forall|c2: int|
                        c <= c2 < point_count(r as int) ==> #[trigger] self.cone_at(r as int, c2)
                            == orig.cone_at(r as int, c2),
                    forall|r2: int, c2: int|
                        r < r2 < 21 && 0 <= c2 < point_count(r2) ==> #[trigger] self.cone_at(
                            r2,
                            c2,
                        ) == orig.cone_at(r2, c2),
                decreases n - c,
            {
                let ghost prev = *self;
                if crate::board::board_color_at(r, c) == color {
                    self.cones[r][c] = Some(color);
                }
                proof {
                    assert forall|r2: int, c2: int|
                        0 <= r2 < 21 && 0 <= c2 < point_count(r2) && !(r2 == r as int && c2
                            == c as int) implies (#[trigger] self.cone_at(r2, c2)) == prev.cone_at(
                        r2,
                        c2,
                    ) by {}
                    assert(self.cone_at(r as int, c as int) == (if home_color(r as int, c as int)
                        == color {
                        Some(color)
                    } else {
                        prev.cone_at(r as int, c as int)
                    }));
                }
                c += 1;
            }
            r += 1;
        }
    }

    /// Takes every cone of `color` off the board.
    pub(crate) fn clear_color_cones(&mut self, color: usize)
        requires
            old(self).grid_wf(),
        ensures
            final(self).grid_wf(),
            final(self).players_colors == old(self).players_colors,
            final(self).moves == old(self).moves,
            forall|r: int, c: int|
                in_bounds(r, c) ==> #[trigger] final(self).cone_at(r, c) == (if old(self).cone_at(
                    r,
                    c,
                ) == Some(color) {
                    None::<usize>
                } else {
                    old(self).cone_at(r, c)
                }),
    {
        let ghost orig = *self;
        let mut r: usize = 0;
        while r < 21
            invariant
                self.grid_wf(),
                r <= 21,
                orig == *old(self),
                self.players_colors == orig.players_colors,
                self.moves == orig.moves,
                forall|r2: int, c2: int|
                    0 <= r2 < r && 0 <= c2 < point_count(r2) ==> #[trigger] self.cone_at(r2, c2)
                        == (if orig.cone_at(r2, c2) == Some(color) {
                        None::<usize>
                    } else {
                        orig.cone_at(r2, c2)
                    }),
                forall|r2: int, c2: int|
                    r <= r2 < 21 && 0 <= c2 < point_count(r2) ==> #[trigger] self.cone_at(r2, c2)
                        == orig.cone_at(r2, c2),
            decreases 21 - r,
        {
            let n = point_count_at(r);
            let mut c: usize = 0;
            while c < n
                invariant
                    self.grid_wf(),
                    r < 21,
                    c <= n,
                    n == point_count(r as int),
                    orig == *old(self),
                    self.players_colors == orig.players_colors,
                    self.moves == orig.moves,
                    forall|r2: int, c2: int|
                        0 <= r2 < r && 0 <= c2 < point_count(r2) ==> #[trigger] self.cone_at(
                            r2,
                            c2,
                        ) == (if orig.cone_at(r2, c2) == Some(color) {
                            None::<usize>
                        } else {
                            orig.cone_at(r2, c2)
                        }),
                    forall|c2: int|
                        0 <= c2 < c ==> #[trigger] self.cone_at(r as int, c2) == (if orig.cone_at(
                            r as int,
                            c2,
                        ) == Some(color) {
                            None::<usize>
                        } else {
                            orig.cone_at(r as int, c2)
                        }),
                    forall|c2: int|
                        c <= c2 < point_count(r as int) ==> #[trigger] self.cone_at(r as int, c2)
                            == orig.cone_at(r as int, c2),
                    forall|r2: int, c2: int|
                        r < r2 < 21 && 0 <= c2 < point_count(r2) ==> #[trigger] self.cone_at(
                            r2,
                            c2,
                        ) == orig.cone_at(r2, c2),
                decreases n - c,
            {
                let ghost prev = *self;
                let clear = match self.cones[r][c] {
                    Some(cc) => cc == color,
                    None => false,
                };
                if clear {
                    self.cones[r][c] = None;
                }
                proof {
                    assert forall|r2: int, c2: int|
                        0 <= r2 < 21 && 0 <= c2 < point_count(r2) && !(r2 == r as int && c2
                            == c as int) implies (#[trigger] self.cone_at(r2, c2)) == prev.cone_at(
                        r2,
                        c2,
                    ) by {}
                    assert(self.cone_at(r as int, c as int) == (if prev.cone_at(r as int, c as int)
                        == Some(color) {
                        None::<usize>
                    } else {
                        prev.cone_at(r as int, c as int)
                    }));
                }
                c += 1;
            }
            r += 1;
        }
    }

    /// Fills the home triangle of `color_number` with cones of that color;
    /// rejects the call, changing nothing, when any of those cells is occupied.
    pub fn add_cones_for_color(&mut self, color_number: usize) -> (res: Result<(), usize>)
        requires
            old(self).wf(),
        ensures
            final(self).wf(),
            final(self).players_colors == old(self).players_colors,
            final(self).moves == old(self).moves,
            res is Ok <==> (forall|r: int, c: int|
                in_bounds(r, c) && home_color(r, c) == color_number ==> #[trigger] old(
                    self,
                ).cone_at(r, c) is None),
            res matches Err(e) ==> e == 0,
            res is Err ==> *final(self) == *old(self),
            res is Ok ==> forall|r: int, c: int|
                in_bounds(r, c) ==> #[trigger] final(self).cone_at(r, c) == (if home_color(r, c)
                    == color_number {
                    Some(color_number)
                } else {
                    old(self).cone_at(r, c)
                }),
    {
        if !self.home_cells_free(color_number) {
            return Err(0);
        }
        self.fill_home_cells(color_number);
        Ok(())
    }

    /// Seats `user_id` on `color` and fills that color's home triangle.
    /// Calling again with the user's current color changes nothing; otherwise
    /// the call is rejected, changing nothing, when any home cell of `color`
    /// is occupied.
    pub fn add_cones(&mut self, user_id: usize, color: usize) -> (res: Result<(), usize>)
        requires
            old(self).wf(),
        ensures
            final(self).wf(),
            final(self).moves == old(self).moves,
            old(self).player_color(user_id) == Some(color) ==> res is Ok && *final(self) == *old(
                self,
            ),
            old(self).player_color(user_id) != Some(color) ==> {
                &&& (res is Ok <==> (forall|r: int, c: int|
                    in_bounds(r, c) && home_color(r, c) == color ==> #[trigger] old(self).cone_at(
                        r,
                        c,
                    ) is None))
                &&& (res is Err ==> *final(self) == *old(self))
                &&& (res matches Err(e) ==> e == 0)
                &&& (res is Ok ==> {
                    &&& forall|r: int, c: int|
                        in_bounds(r, c) ==> #[trigger] final(self).cone_at(r, c) == (if home_color(
                            r,
                            c,
                        ) == color {
                            Some(color)
                        } else {
                            old(self).cone_at(r, c)
                        })
                    &&& final(self).player_color(user_id) == Some(color)
                    &&& forall|u: usize|
                        u != user_id ==> final(self).player_color(u) == old(self).player_color(u)
                    &&& forall|c2: usize|
                        #[trigger] final(self).color_taken(c2) <==> (old(self).color_used_by_other(
                            user_id,
                            c2,
                        ) || c2 == color)
                })
            },
    {
        match self.get_player_color(user_id) {
            Some(c0) => {
                if c0 == color {
                    return Ok(());
                }
            },
            None => {},
        }
        if !self.home_cells_free(color) {
            return Err(0);
        }
        self.fill_home_cells(color);
        let ghost mid = *self;
        self.set_player_color(user_id, color);
        proof {
            assert(mid.players_colors@ == old(self).players_colors@);
            assert forall|r: int, c: int| in_bounds(r, c) implies (#[trigger] self.cone_at(r, c))
                == (if home_color(r, c) == color {
                Some(color)
            } else {
                old(self).cone_at(r, c)
            }) by {
                assert(self.cones == mid.cones);
                assert(self.cone_at(r, c) == mid.cone_at(r, c));
            }
        }
        Ok(())
    }

    /// Seats `user_id` as player number `player_number`, whose color is the
    /// number plus one.
    pub fn add_cones_for_player(&mut self, player_number: usize, user_id: usize) -> (res: Result<
        (),
        usize,
    >)
        requires
            old(self).wf(),
            player_number < usize::MAX,
        ensures
            final(self).wf(),
            final(self).moves == old(self).moves,
            old(self).player_color(user_id) == Some((player_number + 1) as usize) ==> res is Ok
                && *final(self) == *old(self),
            res is Err ==> *final(self) == *old(self),
            res matches Err(e) ==> e == 0,
    {
        self.add_cones(user_id, player_number + 1)
    }

    /// Unseats `user_id`: takes every cone of their color off the board and
    /// drops their color binding.
    pub fn remove_cones(&mut self, user_id: usize)
        requires
            old(self).wf(),
        ensures
            final(self).wf(),
            final(self).moves == old(self).moves,
            final(self).player_color(user_id) is None,
            forall|u: usize| u != user_id ==> final(self).player_color(u) == old(self).player_color(u),
            forall|c2: usize|
                #[trigger] final(self).color_taken(c2) <==> old(self).color_used_by_other(
                    user_id,
                    c2,
                ),
            old(self).player_color(user_id) matches Some(cl) ==> forall|r: int, c: int|
                in_bounds(r, c) ==> #[trigger] final(self).cone_at(r, c) == (if old(self).cone_at(
                    r,
                    c,
                ) == Some(cl) {
                    None::<usize>
                } else {
                    old(self).cone_at(r, c)
                }),
            old(self).player_color(user_id) is None ==> final(self).cones == old(self).cones,
    {
        match self.get_player_color(user_id) {
            Some(cl) => {
                self.clear_color_cones(cl);
                let ghost mid = *self;
                self.remove_player_color(user_id);
                proof {
                    assert(mid.players_colors@ == old(self).players_colors@);
                    assert forall|r: int, c: int|
                        in_bounds(r, c) implies (#[trigger] self.cone_at(r, c)) == (if old(
                        self,
                    ).cone_at(r, c) == Some(cl) {
                        None::<usize>
                    } else {
                        old(self).cone_at(r, c)
                    }) by {
                        assert(self.cones == mid.cones);
                        assert(self.cone_at(r, c) == mid.cone_at(r, c));
                    }
                }
            },
            None => {
                proof {
                    lemma_lookup_none(self.players_colors@, user_id);
                }
            },
        }
    }

    /// The cells holding the cones of `user_id`'s color, in row-major order;
    /// empty when the user is not seated.
    pub fn get_cones(&self, user_id: &usize) -> (v: Vec<(usize, usize)>)
        requires
            self.grid_wf(),
        ensures
            self.player_color(*user_id) is None ==> v@.len() == 0,
            self.player_color(*user_id) matches Some(cl) ==> forall|p: (usize, usize)|
                #[trigger] v@.contains(p) <==> (in_bounds(p.0 as int, p.1 as int) && self.cone_at(
                    p.0 as int,
                    p.1 as int,
                ) == Some(cl)),
            forall|i: int, j: int| 0 <= i < j < v@.len() ==> v@[i] != v@[j],
    {
        let mut v: Vec<(usize, usize)> = Vec::new();
        let cl = match self.get_player_color(*user_id) {
            None => {
                return v;
            },
            Some(cl) => cl,
        };
        let mut r: usize = 0;
        while r < 21
            invariant
                self.grid_wf(),
                r <= 21,
                forall|p: (usize, usize)|
                    #[trigger] v@.contains(p) <==> ((p.0 as int) < r && in_bounds(
                        p.0 as int,
                        p.1 as int,
                    ) && self.cone_at(p.0 as int, p.1 as int) == Some(cl)),
                forall|i: int, j: int| 0 <= i < j < v@.len() ==> v@[i] != v@[j],
            decreases 21 - r,
        {
            let n = point_count_at(r);
            let mut c: usize = 0;
            while c < n
                invariant
                    self.grid_wf(),
                    r < 21,
                    c <= n,
                    n == point_count(r as int),
                    forall|p: (usize, usize)|
                        #[trigger] v@.contains(p) <==> (((p.0 as int) < r && in_bounds(
                            p.0 as int,
                            p.1 as int,
                        ) && self.cone_at(p.0 as int, p.1 as int) == Some(cl)) || (p.0 == r && (
                        p.1 as int) < c && self.cone_at(p.0 as int, p.1 as int) == Some(cl))),
                    forall|i: int, j: int| 0 <= i < j < v@.len() ==> v@[i] != v@[j],
                decreases n - c,
            {
                proof {
                    broadcast use vstd::seq_lib::lemma_seq_contains_after_push;

                }
                let keep = match self.cones[r][c] {
                    Some(cc) => cc == cl,
                    None => false,
                };
                if keep {
                    proof {
                        assert(!v@.contains((r, c)));
                    }
                    v.push((r, c));
                }
                c += 1;
            }
            r += 1;
        }
        v
    }

    /// Decides whether `user_id` has won: every cone of their color stands in
    /// the home triangle of the complementary color. Errs when the user is
    /// not seated.
    pub fn is_all_cones_in_place(&self, user_id: &usize) -> (res: Result<bool, usize>)
        requires
            self.grid_wf(),
        ensures
            res is Ok <==> self.player_color(*user_id) is Some,
            res matches Err(e) ==> e == 0,
            res matches Ok(b) ==> b == self.all_on_complement(self.player_color(*user_id)->0),
    {
        let color = match self.get_player_color(*user_id) {
            None => {
                return Err(0);
            },
            Some(cl) => cl,
        };
        let comp = get_complementary(color);
        let mut r: usize = 0;
        while r < 21
            invariant
                self.grid_wf(),
                r <= 21,
                self.player_color(*user_id) == Some(color),
                comp == spec_complement(color),
                forall|r2: int, c2: int|
                    0 <= r2 < r && 0 <= c2 < point_count(r2) && #[trigger] self.cone_at(r2, c2)
                        == Some(color) ==> home_color(r2, c2) == spec_complement(color),
            decreases 21 - r,
        {
            let n = point_count_at(r);
            let mut c: usize = 0;
            while c < n
                invariant
                    self.grid_wf(),
                    r < 21,
                    c <= n,
                    n == point_count(r as int),
                    self.player_color(*user_id) == Some(color),
                    comp == spec_complement(color),
                    forall|r2: int, c2: int|
                        0 <= r2 < r && 0 <= c2 < point_count(r2) && #[trigger] self.cone_at(r2, c2)
                            == Some(color) ==> home_color(r2, c2) == spec_complement(color),
                    forall|c2: int|
                        0 <= c2 < c && #[trigger] self.cone_at(r as int, c2) == Some(color)
                            ==> home_color(r as int, c2) == spec_complement(color),
                decreases n - c,
            {
                let is_mine = match self.cones[r][c] {
                    Some(cc) => cc == color,
                    None => false,
                };
                if is_mine && crate::board::board_color_at(r, c) != comp {
                    proof {
                        assert(in_bounds(r as int, c as int));
                        assert(self.cone_at(r as int, c as int) == Some(color));
                    }
                    return Ok(false);
                }
                c += 1;
            }
            r += 1;
        }
        Ok(true)
    }

    /// Applies a validated path: the cone on the path's first cell moves to
    /// its last cell, the move is appended to the bounded history (evicting
    /// the oldest entry at capacity 10), and the second component of the
    /// result reports whether the mover has now won. Fails, changing nothing,
    /// when the path is invalid, the first cell is empty, or the user is not
    /// seated.
    #[verifier::rlimit(100)]
    #[verifier::spinoff_prover]
    pub fn update_cones(&mut self, path: &Vec<(i32, i32)>, user_id: &usize) -> (res: Result<
        (Vec<(usize, usize)>, bool),
        usize,
    >)
        requires
            old(self).wf(),
        ensures
            final(self).wf(),
            res is Ok <==> (old(self).spec_valid_path(path_ints(path@)) && old(self).spec_occupied(
                path@[0].0 as int,
                path@[0].1 as int,
            ) && old(self).player_color(*user_id) is Some),
            res is Err ==> *final(self) == *old(self),
            res matches Err(e) ==> e == 0 || e == 1,
            res matches Ok(pr) ==> ({
                &&& spec_after_move(*old(self), *final(self), path_ints(path@))
                &&& pr.0@.len() == path@.len()
                &&& (forall|i: int|
                    0 <= i < path@.len() ==> (#[trigger] pr.0@[i]).0 == path@[i].0 && pr.0@[i].1
                        == path@[i].1)
                &&& final(self).moves@.last().1@ == pr.0@
                &&& pr.1 == final(self).all_on_complement(old(self).player_color(*user_id)->0)
            }),
    {
        let ghost pis = path_ints(path@);
        match self.validate_path(path) {
            Err(e) => {
                return Err(e);
            },
            Ok(_) => {},
        }
        proof {
            assert forall|i: int| 0 <= i < pis.len() implies in_bounds(
                (#[trigger] pis[i]).0,
                pis[i].1,
            ) by {
                if pis.len() == 2 {
                } else {
                    if i == 0 {
                        assert(self.spec_can_jump((pis[0]).0, pis[0].1, (pis[1]).0, pis[1].1));
                    } else {
                        assert(self.spec_can_jump(
                            (pis[i - 1]).0,
                            pis[i - 1].1,
                            pis[i].0,
                            pis[i].1,
                        ));
                    }
                }
            }
        }
        let (s1, s2) = path[0];
        let last_idx = path.len() - 1;
        let (e1, e2) = path[last_idx];
        proof {
            assert(in_bounds((pis[0]).0, pis[0].1));
            assert(in_bounds((pis[pis.len() - 1]).0, pis[pis.len() - 1].1));
            assert(pis[0] == (s1 as int, s2 as int));
            assert(pis[pis.len() - 1] == (e1 as int, e2 as int));
        }
        let cl = match self.cones[s1 as usize][s2 as usize] {
            None => {
                return Err(0);
            },
            Some(c) => c,
        };
        match self.get_player_color(*user_id) {
            None => {
                return Err(0);
            },
            Some(_) => {},
        }
        let ghost pre = *self;
        self.cones[s1 as usize][s2 as usize] = None;
        self.cones[e1 as usize][e2 as usize] = Some(cl);
        proof {
            assert forall|r: int, c: int|
                in_bounds(r, c) implies (#[trigger] self.cone_at(r, c)) == (if r == e1 as int && c
                    == e2 as int {
                    Some(cl)
                } else if r == s1 as int && c == s2 as int {
                    None::<usize>
                } else {
                    pre.cone_at(r, c)
                }) by {}
        }
        if self.moves.len() >= 10 {
            self.moves.remove(0);
            proof {
                assert(self.moves@ =~= pre.moves@.drop_first());
            }
        }
        let ghost trimmed = self.moves@;
        let mut cloned: Vec<(usize, usize)> = Vec::new();
        let mut ret: Vec<(usize, usize)> = Vec::new();
        let mut i: usize = 0;
        while i < path.len()
            invariant
                i <= path@.len(),
                pis == path_ints(path@),
                forall|j: int| 0 <= j < pis.len() ==> in_bounds((#[trigger] pis[j]).0, pis[j].1),
                cloned@.len() == i,
                ret@.len() == i,
                forall|j: int|
                    0 <= j < i ==> (#[trigger] cloned@[j]).0 == path@[j].0 && cloned@[j].1
                        == path@[j].1,
                forall|j: int|
                    0 <= j < i ==> (#[trigger] ret@[j]).0 == path@[j].0 && ret@[j].1 == path@[j].1,
            decreases path@.len() - i,
        {
            let (x, y) = path[i];
            proof {
                assert(in_bounds((pis[i as int]).0, pis[i as int].1));
            }
            cloned.push((x as usize, y as usize));
            ret.push((x as usize, y as usize));
            i += 1;
        }
        self.moves.push((cl, cloned));
        proof {
            assert(self.moves@.drop_last() =~= trimmed);
        }
        let finished = match self.is_all_cones_in_place(user_id) {
            Ok(b) => b,
            Err(_) => {
                proof {
                    assert(false);
                }
                return Err(0);
            },
        };
        Ok((ret, finished))
    }

    /// Checks the position; the list of suggested steps it answers with is
    /// always empty.
    pub fn get_possible_steps(&self, pos: (i32, i32)) -> (res: Result<Vec<(usize, usize)>, &'static str>)
        ensures
            res is Ok <==> in_bounds(pos.0 as int, pos.1 as int),
            res matches Ok(v) ==> v@.len() == 0,
    {
        match self.validate_dimensions(pos.0, pos.1) {
            Ok(_) => Ok(Vec::new()),
            Err(_) => Err("wrong dimensions."),
        }
    }

    /// Whether any seated player holds `color`.
    pub fn is_color_taken(&self, color: usize) -> (b: bool)
        ensures
            b == self.color_taken(color),
    {
        let mut i: usize = 0;
        while i < self.players_colors.len()
            invariant
                i <= self.players_colors@.len(),
                forall|j: int| 0 <= j < i ==> (#[trigger] self.players_colors@[j]).1 != color,
            decreases self.players_colors@.len() - i,
        {
            if self.players_colors[i].1 == color {
                proof {
                    assert(self.players_colors@[i as int].1 == color);
                }
                return true;
            }
            i += 1;
        }
        false
    }

    /// The default color for a joiner: the lowest player color nobody holds,
    /// or 7 when all six are taken.
    pub open spec fn spec_default_color(self) -> usize {
        if !self.color_taken(1) {
            1usize
        } else if !self.color_taken(2) {
            2usize
        } else if !self.color_taken(3) {
            3usize
        } else if !self.color_taken(4) {
            4usize
        } else if !self.color_taken(5) {
            5usize
        } else if !self.color_taken(6) {
            6usize
        } else {
            7usize
        }
    }

    /// Picks the default color for a joiner.
    pub fn default_color(&self) -> (c: usize)
        ensures
            c == self.spec_default_color(),
    {
        if !self.is_color_taken(1) {
            1
        } else if !self.is_color_taken(2) {
            2
        } else if !self.is_color_taken(3) {
            3
        } else if !self.is_color_taken(4) {
            4
        } else if !self.is_color_taken(5) {
            5
        } else if !self.is_color_taken(6) {
            6
        } else {
            7
        }
    }

    /// An independent copy of the state, for broadcasting a snapshot.
    pub fn duplicate(&self) -> (g: GameState)
        requires
            self.wf(),
        ensures
            g.wf(),
            g.same_cones(*self),
            g.grid_wf(),
            g.players_colors@ == self.players_colors@,
            g.moves@.len() == self.moves@.len(),
            forall|i: int|
                0 <= i < self.moves@.len() ==> (#[trigger] g.moves@[i]).0 == self.moves@[i].0
                    && g.moves@[i].1@ == self.moves@[i].1@,
    {
        let mut cones: Vec<Vec<Option<usize>>> = Vec::new();
        let mut r: usize = 0;
        while r < 21
            invariant
                self.grid_wf(),
                r <= 21,
                cones@.len() == r,
                forall|i: int| 0 <= i < r ==> (#[trigger] cones@[i])@.len() == point_count(i),
                forall|i: int, c: int|
                    0 <= i < r && 0 <= c < point_count(i) ==> (#[trigger] cones@[i]@[c])
                        == self.cone_at(i, c),
            decreases 21 - r,
        {
            let n = point_count_at(r);
            let mut row: Vec<Option<usize>> = Vec::new();
            let mut c: usize = 0;
            while c < n
                invariant
                    self.grid_wf(),
                    r < 21,
                    c <= n,
                    n == point_count(r as int),
                    row@.len() == c,
                    forall|k: int| 0 <= k < c ==> row@[k] == self.cone_at(r as int, k),
                decreases n - c,
            {
                row.push(self.cones[r][c]);
                c += 1;
            }
            cones.push(row);
            r += 1;
        }
        let mut players_colors: Vec<(usize, usize)> = Vec::new();
        let mut i: usize = 0;
        while i < self.players_colors.len()
            invariant
                i <= self.players_colors@.len(),
                players_colors@ == self.players_colors@.take(i as int),
            decreases self.players_colors@.len() - i,
        {
            players_colors.push(self.players_colors[i]);
            proof {
                assert(players_colors@ =~= self.players_colors@.take(i as int + 1));
            }
            i += 1;
        }
        proof {
            assert(players_colors@ =~= self.players_colors@);
        }
        let mut moves: Vec<(usize, Vec<(usize, usize)>)> = Vec::new();
        let mut i: usize = 0;
        while i < self.moves.len()
            invariant
                i <= self.moves@.len(),
                moves@.len() == i,
                forall|j: int|
                    0 <= j < i ==> (#[trigger] moves@[j]).0 == self.moves@[j].0 && moves@[j].1@
                        == self.moves@[j].1@,
            decreases self.moves@.len() - i,
        {
            let src_move = &self.moves[i];
            let mut mpath: Vec<(usize, usize)> = Vec::new();
            let mut k: usize = 0;
            while k < src_move.1.len()
                invariant
                    k <= src_move.1@.len(),
                    mpath@ == src_move.1@.take(k as int),
                decreases src_move.1@.len() - k,
            {
                mpath.push(src_move.1[k]);
                proof {
                    assert(mpath@ =~= src_move.1@.take(k as int + 1));
                }
                k += 1;
            }
            proof {
                assert(mpath@ =~= src_move.1@);
            }
            moves.push((src_move.0, mpath));
            i += 1;
        }
        GameState { cones, players_colors, moves }
    }

    /// Whether a player other than `user_id` holds `color`.
    pub fn is_color_used_by_other(&self, user_id: usize, color: usize) -> (b: bool)
        ensures
            b == self.color_used_by_other(user_id, color),
    {
        let mut i: usize = 0;
        while i < self.players_colors.len()
            invariant
                i <= self.players_colors@.len(),
                forall|j: int|
                    0 <= j < i ==> !((#[trigger] self.players_colors@[j]).1 == color
                        && self.players_colors@[j].0 != user_id),
            decreases self.players_colors@.len() - i,
        {
            let (u, c) = self.players_colors[i];
            if c == color && u != user_id {
                proof {
                    assert(self.players_colors@[i as int].1 == color && self.players_colors@[
                        i as int].0 != user_id);
                }
                return true;
            }
            i += 1;
        }
        false
    }

    /// Every home cell of `color` is either empty or holds a cone of
    /// `user_id`'s own current color — so the user could switch to `color`.
    pub open spec fn home_free_or_mine(self, user_id: usize, color: usize) -> bool {
        forall|r: int, c: int|
            in_bounds(r, c) && home_color(r, c) == color ==> (#[trigger] self.cone_at(r, c) is None
                || (self.player_color(user_id) matches Some(c0) && self.cone_at(r, c) == Some(c0)))
    }

    /// Decides `home_free_or_mine`.
    pub fn check_home_free_or_mine(&self, user_id: usize, color: usize) -> (b: bool)
        requires
            self.grid_wf(),
        ensures
            b == self.home_free_or_mine(user_id, color),
    {
        let own = self.get_player_color(user_id);
        let mut r: usize = 0;
        while r < 21
            invariant
                self.grid_wf(),
                r <= 21,
                own == self.player_color(user_id),
                forall|r2: int, c2: int|
                    0 <= r2 < r && 0 <= c2 < point_count(r2) && home_color(r2, c2)
                        == color ==> (#[trigger] self.cone_at(r2, c2) is None || (
                    self.player_color(user_id) matches Some(c0) && self.cone_at(r2, c2) == Some(
                        c0,
                    ))),
            decreases 21 - r,
        {
            let n = point_count_at(r);
            let mut c: usize = 0;
            while c < n
                invariant
                    self.grid_wf(),
                    r < 21,
                    c <= n,
                    n == point_count(r as int),
                    own == self.player_color(user_id),
                    forall|r2: int, c2: int|
                        0 <= r2 < r && 0 <= c2 < point_count(r2) && home_color(r2, c2)
                            == color ==> (#[trigger] self.cone_at(r2, c2) is None || (
                        self.player_color(user_id) matches Some(c0) && self.cone_at(r2, c2) == Some(
                            c0,
                        ))),
                    forall|c2: int|
                        0 <= c2 < c && home_color(r as int, c2) == color ==> (
                        #[trigger] self.cone_at(r as int, c2) is None || (self.player_color(
                            user_id,
                        ) matches Some(c0) && self.cone_at(r as int, c2) == Some(c0))),
                decreases n - c,
            {
                if crate::board::board_color_at(r, c) == color {
                    let bad = match (self.cones[r][c], own) {
                        (None, _) => false,
                        (Some(cc), Some(c0)) => cc != c0,
                        (Some(_), None) => true,
                    };
                    if bad {
                        proof {
                            assert(in_bounds(r as int, c as int));
                            assert(self.cone_at(r as int, c as int) is Some);
                        }
                        return false;
                    }
                }
                c += 1;
            }
            r += 1;
        }
        true
    }

    /// A move from `from` to `to` is a legal jump: both cells in bounds, `to`
    /// empty and not a direct neighbor of `from`, and exactly one cell is a
    /// common neighbor of the two — the pivot — which must hold a cone.
    pub open spec fn spec_can_jump(self, fr: int, fc: int, tr: int, tc: int) -> bool {
        &&& in_bounds(fr, fc)
        &&& in_bounds(tr, tc)
        &&& !crate::board::spec_is_neighbor(fr, fc, tr, tc)
        &&& !self.spec_occupied(tr, tc)
        &&& exists|m: (int, int)|
            {
                &&& #[trigger] crate::board::is_pivot(fr, fc, tr, tc, m.0, m.1)
                &&& self.spec_occupied(m.0, m.1)
                &&& forall|m2: (int, int)|
                    #[trigger] crate::board::is_pivot(fr, fc, tr, tc, m2.0, m2.1) ==> m2 == m
            }
    }

    /// Decides the jump rule. Returns `Ok(true)` exactly on a legal jump,
    /// `Err(0)` when an endpoint is out of bounds, and `Err(1)` when both
    /// endpoints are in bounds but the jump rule rejects the move.
    #[verifier::rlimit(60)]
    pub fn can_jump(&self, from: (i32, i32), to: (i32, i32)) -> (res: Result<bool, usize>)
        requires
            self.grid_wf(),
        ensures
            res is Ok <==> self.spec_can_jump(from.0 as int, from.1 as int, to.0 as int, to.1 as int),
            res matches Ok(b) ==> b == true,
            res matches Err(e) ==> e == 0 || e == 1,
            res matches Err(e) ==> (e == 0 <==> !(in_bounds(from.0 as int, from.1 as int)
                && in_bounds(to.0 as int, to.1 as int))),
    {
        let ghost fr = from.0 as int;
        let ghost fc = from.1 as int;
        let ghost tr = to.0 as int;
        let ghost tc = to.1 as int;
        let from_neighbors = self.get_neighbors(from.0, from.1)?;
        let to_valid = self.validate_dimensions(to.0, to.1)?;
        if vec_contains_pair(&from_neighbors, to_valid) || self.is_occupied(to.0, to.1)? {
            return Err(1);
        }
        let fu = (from.0 as usize, from.1 as usize);
        let tu = (to.0 as usize, to.1 as usize);
        let mut common: Vec<(usize, usize)> = Vec::new();
        let mut i: usize = 0;
        while i < from_neighbors.len()
            invariant
                self.grid_wf(),
                i <= from_neighbors@.len(),
                in_bounds(fr, fc),
                in_bounds(tr, tc),
                fu.0 == fr && fu.1 == fc && tu.0 == tr && tu.1 == tc,
                forall|p: (usize, usize)| #[trigger] from_neighbors@.contains(p)
                    <==> crate::board::spec_is_neighbor(fr, fc, p.0 as int, p.1 as int),
                forall|k: int, l: int|
                    0 <= k < l < from_neighbors@.len() ==> from_neighbors@[k] != from_neighbors@[l],
                forall|p: (usize, usize)| #[trigger] common@.contains(p) ==> exists|j: int|
                    0 <= j < i && from_neighbors@[j] == p,
                forall|p: (usize, usize)| #[trigger] common@.contains(p)
                    ==> crate::board::is_pivot(fr, fc, tr, tc, p.0 as int, p.1 as int),
                forall|j: int|
                    0 <= j < i && crate::board::is_pivot(
                        fr,
                        fc,
                        tr,
                        tc,
                        (#[trigger] from_neighbors@[j]).0 as int,
                        from_neighbors@[j].1 as int,
                    ) ==> common@.contains(from_neighbors@[j]),
                forall|k: int, l: int| 0 <= k < l < common@.len() ==> common@[k] != common@[l],
            decreases from_neighbors@.len() - i,
        {
            proof {
                broadcast use vstd::seq_lib::lemma_seq_contains_after_push;

            }
            let x = from_neighbors[i];
            proof {
                assert(from_neighbors@.contains(x));
            }
            let nn = self.get_neighbors(x.0 as i32, x.1 as i32)?;
            if vec_contains_pair(&nn, fu) && vec_contains_pair(&nn, tu) {
                proof {
                    assert(crate::board::is_pivot(fr, fc, tr, tc, x.0 as int, x.1 as int));
                    if common@.contains(x) {
                        let j = choose|j: int| 0 <= j < i && from_neighbors@[j] == x;
                        assert(from_neighbors@[j] == from_neighbors@[i as int]);
                        assert(false);
                    }
                }
                common.push(x);
            }
            i += 1;
        }
        if common.len() == 1 {
            let neighbor = common[0];
            proof {
                assert(common@.contains(common@[0]));
            }
            if self.is_occupied(neighbor.0 as i32, neighbor.1 as i32)? {
                proof {
                    let m = (neighbor.0 as int, neighbor.1 as int);
                    assert(crate::board::is_pivot(fr, fc, tr, tc, m.0, m.1));
                    assert forall|m2: (int, int)| #[trigger] crate::board::is_pivot(
                        fr,
                        fc,
                        tr,
                        tc,
                        m2.0,
                        m2.1,
                    ) implies m2 == m by {
                        let q = (m2.0 as usize, m2.1 as usize);
                        assert(from_neighbors@.contains(q));
                        let j = choose|j: int| 0 <= j < from_neighbors@.len() && from_neighbors@[j]
                            == q;
                        assert(common@.contains(q));
                        let l = choose|l: int| 0 <= l < common@.len() && common@[l] == q;
                        assert(q == neighbor);
                    }
                }
                return Ok(true);
            }
            proof {
                if self.spec_can_jump(fr, fc, tr, tc) {
                    let m = choose|m: (int, int)|
                        crate::board::is_pivot(fr, fc, tr, tc, m.0, m.1) && self.spec_occupied(
                            m.0,
                            m.1,
                        ) && (forall|m2: (int, int)|
                            #[trigger] crate::board::is_pivot(fr, fc, tr, tc, m2.0, m2.1) ==> m2
                                == m);
                    let q = (m.0 as usize, m.1 as usize);
                    assert(from_neighbors@.contains(q));
                    assert(common@.contains(q));
                    let l = choose|l: int| 0 <= l < common@.len() && common@[l] == q;
                    assert(q == neighbor);
                    assert(false);
                }
            }
            return Err(1);
        }
        proof {
            if self.spec_can_jump(fr, fc, tr, tc) {
                let m = choose|m: (int, int)|
                    crate::board::is_pivot(fr, fc, tr, tc, m.0, m.1) && self.spec_occupied(m.0, m.1)
                        && (forall|m2: (int, int)|
                        #[trigger] crate::board::is_pivot(fr, fc, tr, tc, m2.0, m2.1) ==> m2 == m);
                let q = (m.0 as usize, m.1 as usize);
                assert(from_neighbors@.contains(q));
                assert(common@.contains(q));
                assert(common@.len() >= 1);
                if common@.len() >= 2 {
                    let p0 = common@[0];
                    let p1 = common@[1];
                    assert(common@.contains(p0));
                    assert(common@.contains(p1));
                    assert(crate::board::is_pivot(fr, fc, tr, tc, p0.0 as int, p0.1 as int));
                    assert(crate::board::is_pivot(fr, fc, tr, tc, p1.0 as int, p1.1 as int));
                    assert((p0.0 as int, p0.1 as int) == m && (p1.0 as int, p1.1 as int) == m);
                    assert(p0 == p1);
                    assert(false);
                }
                assert(false);
            }
        }
        Err(1)
    }

    /// A path is valid: it has at least two cells; a two-cell path is either
    /// one step to an empty direct neighbor or one legal jump; a longer path
    /// is a chain of legal jumps through empty cells.
    pub open spec fn spec_valid_path(self, path: Seq<(int, int)>) -> bool {
        &&& path.len() >= 2
    &&& if path.len() == 2 {
            &&& in_bounds(path[1].0, path[1].1)
            &&& !self.spec_occupied(path[1].0, path[1].1)
            &&& in_bounds(path[0].0, path[0].1)
            &&& (crate::board::spec_is_neighbor(path[0].0, path[0].1, path[1].0, path[1].1)
                || self.spec_can_jump(path[0].0, path[0].1, path[1].0, path[1].1))
        } else {
            forall|i: int|
                1 <= i < path.len() ==> self.spec_can_jump(
                    (path[i - 1]).0,
                    path[i - 1].1,
                    (#[trigger] path[i]).0,
                    path[i].1,
                )
        }
    }

    /// Accepts exactly the valid paths of `spec_valid_path`; the error is 0
    /// for a malformed or out-of-bounds path and 1 for a rejected jump chain.
    #[verifier::rlimit(100)]
    pub fn validate_path(&self, path: &Vec<(i32, i32)>) -> (res: Result<bool, usize>)
        requires
            self.grid_wf(),
        ensures
            res is Ok <==> self.spec_valid_path(path_ints(path@)),
            res matches Ok(b) ==> b == true,
            res matches Err(e) ==> e == 0 || e == 1,
    {
        let ghost pis = path_ints(path@);
        if path.len() < 2 {
            return Err(0);
        }
        if path.len() == 2 {
            let prev = path[0];
            let next = path[1];
            if self.is_occupied(next.0, next.1)? {
                return Err(0);
            }
            let neighbors = self.get_neighbors(prev.0, prev.1)?;
            return if vec_contains_pair(&neighbors, (next.0 as usize, next.1 as usize)) {
                Ok(true)
            } else if self.can_jump(prev, next)? {
                Ok(true)
            } else {
                Err(0)
            };
        }
        let mut ind: usize = 1;
        while ind < path.len()
            invariant
                self.grid_wf(),
                1 <= ind <= path@.len(),
                path@.len() > 2,
                pis == path_ints(path@),
                forall|i: int|
                    1 <= i < ind ==> self.spec_can_jump(
                        (pis[i - 1]).0,
                        pis[i - 1].1,
                        (#[trigger] pis[i]).0,
                        pis[i].1,
                    ),
            decreases path@.len() - ind,
        {
            let (row, col) = path[ind];
            let prev = path[ind - 1];
            proof {
                assert(pis[ind as int] == (row as int, col as int));
                assert(pis[ind as int - 1] == (prev.0 as int, prev.1 as int));
            }
            let occ = match self.is_occupied(row, col) {
                Ok(b) => b,
                Err(e) => {
                    proof {
                        if self.spec_valid_path(pis) {
                            assert(self.spec_can_jump(
                                (pis[ind as int - 1]).0,
                                pis[ind as int - 1].1,
                                pis[ind as int].0,
                                pis[ind as int].1,
                            ));
                            assert(false);
                        }
                    }
                    return Err(e);
                },
            };
            if occ {
                proof {
                    if self.spec_valid_path(pis) {
                        assert(self.spec_can_jump(
                            (pis[ind as int - 1]).0,
                            pis[ind as int - 1].1,
                            pis[ind as int].0,
                            pis[ind as int].1,
                        ));
                        assert(false);
                    }
                }
                return Err(1);
            }
            let jumped = match self.can_jump(prev, (row, col)) {
                Ok(b) => b,
                Err(e) => {
                    proof {
                        if self.spec_valid_path(pis) {
                            assert(self.spec_can_jump(
                                (pis[ind as int - 1]).0,
                                pis[ind as int - 1].1,
                                pis[ind as int].0,
                                pis[ind as int].1,
                            ));
                            assert(false);
                        }
                    }
                    return Err(1);
                },
            };
            if !jumped {
                return Err(1);
            }
            ind += 1;
        }
        Ok(true)
    }

    /// Some entry, of any user, holds `color`.
    pub open spec fn color_taken(self, color: usize) -> bool {
        exists|i: int|
            0 <= i < self.players_colors@.len() && (#[trigger] self.players_colors@[i]).1 == color
    }

    /// Some entry of a user other than `user` holds `color`.
    pub open spec fn color_used_by_other(self, user: usize, color: usize) -> bool {
        exists|i: int|
            0 <= i < self.players_colors@.len() && (#[trigger] self.players_colors@[i]).1 == color
                && self.players_colors@[i].0 != user
    }

    /// Binds `user_id` to `color`, replacing any earlier binding of the user.
    fn set_player_color(&mut self, user_id: usize, color: usize)
        requires
            old(self).colors_wf(),
        ensures
            final(self).colors_wf(),
            final(self).cones == old(self).cones,
            final(self).moves == old(self).moves,
            final(self).player_color(user_id) == Some(color),
            forall|u: usize| u != user_id ==> final(self).player_color(u) == old(self).player_color(u),
            forall|c2: usize|
                #[trigger] final(self).color_used_by_other(user_id, c2) == old(
                    self,
                ).color_used_by_other(user_id, c2),
            forall|c2: usize|
                #[trigger] final(self).color_taken(c2) <==> (old(self).color_used_by_other(
                    user_id,
                    c2,
                ) || c2 == color),
    {
        let ghost s0 = self.players_colors@;
        let mut i: usize = 0;
        while i < self.players_colors.len()
            invariant
                i <= self.players_colors@.len(),
                self.players_colors@ == s0,
                s0 == old(self).players_colors@,
                old(self).colors_wf(),
                self.cones == old(self).cones,
                self.moves == old(self).moves,
                forall|j: int| 0 <= j < i ==> (#[trigger] s0[j]).0 != user_id,
            decreases self.players_colors@.len() - i,
        {
            let (u, _) = self.players_colors[i];
            if u == user_id {
                proof {
                    assert(s0[i as int].0 == user_id);
                    assert forall|k: int|
                        0 <= k < s0.len() && k != i as int implies (#[trigger] s0[k]).0
                        != user_id by {
                        if k > i as int {
                            assert(old(self).players_colors@[i as int].0 != old(
                                self,
                            ).players_colors@[k].0);
                        }
                    }
                }
                self.players_colors[i] = (user_id, color);
                proof {
                    lemma_lookup_update(s0, i as int, (user_id, color));
                    assert forall|c2: usize| #[trigger] self.color_taken(c2) implies (old(
                        self,
                    ).color_used_by_other(user_id, c2) || c2 == color) by {
                        let k = choose|k: int|
                            0 <= k < self.players_colors@.len() && (self.players_colors@[k]).1 == c2;
                        if k != i {
                            assert(s0[k] == self.players_colors@[k]);
                        }
                    }
                    assert forall|c2: usize|
                        old(self).color_used_by_other(user_id, c2) || c2
                            == color implies #[trigger] self.color_taken(c2) by {
                        if old(self).color_used_by_other(user_id, c2) {
                            let k = choose|k: int|
                                0 <= k < s0.len() && (s0[k]).1 == c2 && s0[k].0 != user_id;
                            assert(self.players_colors@[k] == s0[k]);
                        } else {
                            assert(self.players_colors@[i as int].1 == color);
                        }
                    }
                    assert forall|c2: usize| #[trigger] self.color_used_by_other(user_id, c2)
                        implies old(self).color_used_by_other(user_id, c2) by {
                        let k = choose|k: int|
                            0 <= k < self.players_colors@.len() && (self.players_colors@[k]).1 == c2
                                && self.players_colors@[k].0 != user_id;
                        assert(s0[k] == self.players_colors@[k]);
                    }
                    assert forall|c2: usize|
                        old(self).color_used_by_other(user_id, c2) implies #[trigger] self.color_used_by_other(
                        user_id,
                        c2,
                    ) by {
                        let k = choose|k: int|
                            0 <= k < s0.len() && (s0[k]).1 == c2 && s0[k].0 != user_id;
                        assert(self.players_colors@[k] == s0[k]);
                    }
                }
                return ;
            }
            i += 1;
        }
        proof {
            lemma_lookup_push(s0, (user_id, color));
            lemma_lookup_absent(s0, user_id);
        }
        self.players_colors.push((user_id, color));
        proof {
            assert forall|c2: usize| #[trigger] self.color_taken(c2) implies (old(
                self,
            ).color_used_by_other(user_id, c2) || c2 == color) by {
                let k = choose|k: int|
                    0 <= k < self.players_colors@.len() && (self.players_colors@[k]).1 == c2;
                if k < s0.len() {
                    assert(s0[k] == self.players_colors@[k]);
                    assert(s0[k].0 != user_id);
                }
            }
            assert forall|c2: usize|
                old(self).color_used_by_other(user_id, c2) || c2 == color implies #[trigger] self.color_taken(
                c2,
            ) by {
                if old(self).color_used_by_other(user_id, c2) {
                    let k = choose|k: int| 0 <= k < s0.len() && (s0[k]).1 == c2 && s0[k].0 != user_id;
                    assert(self.players_colors@[k] == s0[k]);
                } else {
                    assert(self.players_colors@[s0.len() as int].1 == color);
                }
            }
            assert forall|c2: usize| #[trigger] self.color_used_by_other(user_id, c2) implies old(
                self,
            ).color_used_by_other(user_id, c2) by {
                let k = choose|k: int|
                    0 <= k < self.players_colors@.len() && (self.players_colors@[k]).1 == c2
                        && self.players_colors@[k].0 != user_id;
                assert(s0[k] == self.players_colors@[k]);
            }
            assert forall|c2: usize|
                old(self).color_used_by_other(user_id, c2) implies #[trigger] self.color_used_by_other(
                user_id,
                c2,
            ) by {
                let k = choose|k: int| 0 <= k < s0.len() && (s0[k]).1 == c2 && s0[k].0 != user_id;
                assert(self.players_colors@[k] == s0[k]);
            }
        }
    }

    /// Drops the color binding of `user_id`, if any.
    fn remove_player_color(&mut self, user_id: usize)
        requires
            old(self).colors_wf(),
        ensures
            final(self).colors_wf(),
            final(self).cones == old(self).cones,
            final(self).moves == old(self).moves,
            final(self).player_color(user_id) is None,
            forall|u: usize| u != user_id ==> final(self).player_color(u) == old(self).player_color(u),
            forall|c2: usize|
                #[trigger] final(self).color_taken(c2) <==> old(self).color_used_by_other(
                    user_id,
                    c2,
                ),
    {
        let ghost s0 = self.players_colors@;
        let mut i: usize = 0;
        while i < self.players_colors.len()
            invariant
                i <= self.players_colors@.len(),
                self.players_colors@ == s0,
                s0 == old(self).players_colors@,
                old(self).colors_wf(),
                self.cones == old(self).cones,
                self.moves == old(self).moves,
                forall|j: int| 0 <= j < i ==> (#[trigger] s0[j]).0 != user_id,
            decreases self.players_colors@.len() - i,
        {
            let (u, _) = self.players_colors[i];
            if u == user_id {
                proof {
                    assert(s0[i as int].0 == user_id);
                    assert forall|k: int|
                        0 <= k < s0.len() && k != i as int implies (#[trigger] s0[k]).0
                        != user_id by {
                        if k > i as int {
                            assert(old(self).players_colors@[i as int].0 != old(
                                self,
                            ).players_colors@[k].0);
                        }
                    }
                    lemma_lookup_remove(s0, i as int);
                }
                self.players_colors.remove(i);
                proof {
                    assert forall|c2: usize| #[trigger] self.color_taken(c2) implies old(
                        self,
                    ).color_used_by_other(user_id, c2) by {
                        let k = choose|k: int|
                            0 <= k < self.players_colors@.len() && (self.players_colors@[k]).1 == c2;
                        if k < i {
                            assert(s0[k] == self.players_colors@[k]);
                            assert(s0[k].0 != user_id);
                        } else {
                            assert(s0[k + 1] == self.players_colors@[k]);
                            assert(s0[k + 1].0 != user_id);
                        }
                    }
                    assert forall|c2: usize|
                        old(self).color_used_by_other(user_id, c2) implies #[trigger] self.color_taken(
                        c2,
                    ) by {
                        let k = choose|k: int| 0 <= k < s0.len() && (s0[k]).1 == c2 && s0[k].0 != user_id;
                        if k < i {
                            assert(self.players_colors@[k] == s0[k]);
                        } else {
                            assert(self.players_colors@[k - 1] == s0[k]);
                        }
                    }
                }
                return ;
            }
            i += 1;
        }
        proof {
            lemma_lookup_absent(s0, user_id);
            assert forall|c2: usize| #[trigger] self.color_taken(c2) implies old(
                self,
            ).color_used_by_other(user_id, c2) by {
                let k = choose|k: int|
                    0 <= k < self.players_colors@.len() && (self.players_colors@[k]).1 == c2;
                assert(s0[k].0 != user_id);
            }
        }
    }

    /// The color `user_id` plays, if they are seated.
    pub fn get_player_color(&self, user_id: usize) -> (res: Option<usize>)
        ensures
            res == self.player_color(user_id),
    {
        let s = &self.players_colors;
        proof {
            assert(s@.skip(0) =~= s@);
        }
        let mut i: usize = 0;
        while i < s.len()
            invariant
                i <= s@.len(),
                s@ == self.players_colors@,
                lookup_color(s@, user_id) == lookup_color(s@.skip(i as int), user_id),
            decreases s@.len() - i,
    {
            let (u, c) = s[i];
            if u == user_id {
                proof {
                    assert(s@.skip(i as int)[0] == (u, c));
                    assert(lookup_color(s@.skip(i as int), user_id) == Some(c));
                }
                return Some(c);
            }
            proof {
                assert(s@.skip(i as int).drop_first() =~= s@.skip(i as int + 1));
            }
            i += 1;
        }
        proof {
            assert(s@.skip(i as int).len() == 0);
        }
        None
    }
}

/// The jump rule, characterized: on a board whose only cone stands on
/// `(mr, mc)`, a jump from `a` to `b` is legal exactly when the two cells are
/// not adjacent, `b` is not the occupied cell, and `(mr, mc)` is the one
/// common neighbor of `a` and `b`.
proof fn lemma_jump_characterization(
    gs: GameState,
    ar: int,
    ac: int,
    br: int,
    bc: int,
    mr: int,
    mc: int,
)
    requires
        gs.grid_wf(),
        in_bounds(ar, ac),
        in_bounds(br, bc),
        in_bounds(mr, mc),
        forall|r: int, c: int|
            in_bounds(r, c) ==> (#[trigger] gs.spec_occupied(r, c) <==> (r == mr && c == mc)),
    ensures
        gs.spec_can_jump(ar, ac, br, bc) <==> (!crate::board::spec_is_neighbor(ar, ac, br, bc) && !(
        br == mr && bc == mc) && crate::board::is_pivot(ar, ac, br, bc, mr, mc) && (forall|
            m2: (int, int),
        |
            #[trigger] crate::board::is_pivot(ar, ac, br, bc, m2.0, m2.1) ==> m2 == (mr, mc))),
{
    if gs.spec_can_jump(ar, ac, br, bc) {
        let m = choose|m: (int, int)|
            crate::board::is_pivot(ar, ac, br, bc, m.0, m.1) && gs.spec_occupied(m.0, m.1) && (
            forall|m2: (int, int)|
                #[trigger] crate::board::is_pivot(ar, ac, br, bc, m2.0, m2.1) ==> m2 == m);
        assert(gs.spec_occupied(m.0, m.1));
        assert(in_bounds(m.0, m.1));
        assert(m == (mr, mc));
    }
    if (!crate::board::spec_is_neighbor(ar, ac, br, bc) && !(br == mr && bc == mc)
        && crate::board::is_pivot(ar, ac, br, bc, mr, mc) && (forall|m2: (int, int)|
        #[trigger] crate::board::is_pivot(ar, ac, br, bc, m2.0, m2.1) ==> m2 == (mr, mc))) {
        assert(gs.spec_occupied(mr, mc));
        assert(!gs.spec_occupied(br, bc));
        let m = (mr, mc);
        assert(crate::board::is_pivot(ar, ac, br, bc, m.0, m.1) && gs.spec_occupied(m.0, m.1) && (
        forall|m2: (int, int)|
            #[trigger] crate::board::is_pivot(ar, ac, br, bc, m2.0, m2.1) ==> m2 == m));
        assert(gs.spec_can_jump(ar, ac, br, bc));
    }
}

/// On a board whose only cone stands on `(mr, mc)`, jumping is symmetric:
/// `a` can jump to `b` exactly when `b` can jump to `a`, and either holds
/// exactly when the two cells are not adjacent, neither is the occupied
/// cell's own position as target, and `(mr, mc)` is the unique common
/// neighbor of the two.
pub proof fn lemma_jump_symmetry(
    gs: GameState,
    ar: int,
    ac: int,
    br: int,
    bc: int,
    mr: int,
    mc: int,
)
    requires
        gs.grid_wf(),
        in_bounds(ar, ac),
        in_bounds(br, bc),
        in_bounds(mr, mc),
        forall|r: int, c: int|
            in_bounds(r, c) ==> (#[trigger] gs.spec_occupied(r, c) <==> (r == mr && c == mc)),
    ensures
        gs.spec_can_jump(ar, ac, br, bc) <==> gs.spec_can_jump(br, bc, ar, ac),
        gs.spec_can_jump(ar, ac, br, bc) <==> (!crate::board::spec_is_neighbor(ar, ac, br, bc) && !(
        br == mr && bc == mc) && crate::board::is_pivot(ar, ac, br, bc, mr, mc) && (forall|
            m2: (int, int),
        |
            #[trigger] crate::board::is_pivot(ar, ac, br, bc, m2.0, m2.1) ==> m2 == (mr, mc))),
{
    lemma_jump_characterization(gs, ar, ac, br, bc, mr, mc);
    lemma_jump_characterization(gs, br, bc, ar, ac, mr, mc);
    crate::board::lemma_neighbor_symmetry(ar, ac, br, bc);
    assert forall|x: (int, int)|
        #[trigger] crate::board::is_pivot(ar, ac, br, bc, x.0, x.1)
            <==> #[trigger] crate::board::is_pivot(br, bc, ar, ac, x.0, x.1) by {
        if crate::board::is_pivot(ar, ac, br, bc, x.0, x.1) {
            crate::board::lemma_neighbor_symmetry(br, bc, x.0, x.1);
        }
        if crate::board::is_pivot(br, bc, ar, ac, x.0, x.1) {
            crate::board::lemma_neighbor_symmetry(ar, ac, x.0, x.1);
        }
    }
    if gs.spec_can_jump(ar, ac, br, bc) {
        assert(crate::board::is_pivot(ar, ac, br, bc, mr, mc));
        assert(crate::board::is_pivot(br, bc, ar, ac, mr, mc));
        assert(!(ar == mr && ac == mc));
        assert(!crate::board::spec_is_neighbor(br, bc, ar, ac));
        assert forall|m2: (int, int)| #[trigger] crate::board::is_pivot(
            br,
            bc,
            ar,
            ac,
            m2.0,
            m2.1,
        ) implies m2 == (mr, mc) by {
            assert(crate::board::is_pivot(ar, ac, br, bc, m2.0, m2.1));
        }
        assert(gs.spec_can_jump(br, bc, ar, ac));
    }
    if gs.spec_can_jump(br, bc, ar, ac) {
        assert(crate::board::is_pivot(br, bc, ar, ac, mr, mc));
        assert(crate::board::is_pivot(ar, ac, br, bc, mr, mc));
        assert(!(br == mr && bc == mc));
        assert(!crate::board::spec_is_neighbor(ar, ac, br, bc));
        assert forall|m2: (int, int)| #[trigger] crate::board::is_pivot(
            ar,
            ac,
            br,
            bc,
            m2.0,
            m2.1,
        ) implies m2 == (mr, mc) by {
            assert(crate::board::is_pivot(br, bc, ar, ac, m2.0, m2.1));
        }
        assert(gs.spec_can_jump(ar, ac, br, bc));
    }
}

/// Moving a cone out and then moving it back restores every cell of the
/// board. The two hypotheses describe exactly what `update_cones` guarantees
/// of the board for a move from `(fr, fc)` to `(tr, tc)` and for the reverse
/// move, so two successful moves, the second ending where the first began,
/// cancel out on the board.
pub proof fn lemma_move_roundtrip(
    g0: GameState,
    g1: GameState,
    g2: GameState,
    fr: int,
    fc: int,
    tr: int,
    tc: int,
    cl: usize,
)
    requires
        in_bounds(fr, fc),
        in_bounds(tr, tc),
        !(fr == tr && fc == tc),
        g0.cone_at(fr, fc) == Some(cl),
        g0.cone_at(tr, tc) is None,
        forall|r: int, c: int|
            in_bounds(r, c) ==> #[trigger] g1.cone_at(r, c) == (if r == tr && c == tc {
                Some(cl)
            } else if r == fr && c == fc {
                None::<usize>
            } else {
                g0.cone_at(r, c)
            }),
        forall|r: int, c: int|
            in_bounds(r, c) ==> #[trigger] g2.cone_at(r, c) == (if r == fr && c == fc {
                Some(g1.cone_at(tr, tc)->0)
            } else if r == tr && c == tc {
                None::<usize>
            } else {
                g1.cone_at(r, c)
            }),
    ensures
        g2.same_cones(g0),
{
    assert(in_bounds(tr, tc));
    assert(g1.cone_at(tr, tc) == Some(cl));
    assert forall|r: int, c: int| in_bounds(r, c) implies g2.cone_at(r, c) == #[trigger] g0.cone_at(
        r,
        c,
    ) by {
        assert(g1.cone_at(r, c) == (if r == tr && c == tc {
            Some(cl)
        } else if r == fr && c == fc {
            None::<usize>
        } else {
            g0.cone_at(r, c)
        }));
    }
}

} // verus!
