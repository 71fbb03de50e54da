//! Blast visuals: each pending blast record is turned into the grid tiles it
//! covers (for the rendering collaborator) and then consumed — a blast is
//! logically dead to the simulation one tick after the cast.

use vstd::prelude::*;
use crate::components::FireballEffect;
use crate::geometry::{dist2, lemma_square_bound, spec_dist2, Point};
use crate::world::{GameState, same_world_config};
use crate::{SCREEN_WIDTH, SCREEN_HEIGHT};

verus! {

/// Tiles of one grid row, at or right of column `x`, covered by the blast.
pub open spec fn blast_row(e: FireballEffect, y: int, x: int) -> Seq<Point>
    decreases SCREEN_WIDTH - x
        when 0 <= x <= SCREEN_WIDTH
{
    if x >= SCREEN_WIDTH {
        Seq::empty()
    } else {
        let p = Point { x: x as i32, y: y as i32 };
        let here = if spec_dist2(p, e.center) <= e.radius * e.radius {
            seq![p]
        } else {
            Seq::<Point>::empty()
        };
        here + blast_row(e, y, x + 1)
    }
}

/// Blast tiles of all grid rows at or below `y`, in row-major order.
pub open spec fn blast_rows(e: FireballEffect, y: int) -> Seq<Point>
    decreases SCREEN_HEIGHT - y
        when 0 <= y <= SCREEN_HEIGHT
{
    if y >= SCREEN_HEIGHT {
        Seq::empty()
    } else {
        blast_row(e, y, 0) + blast_rows(e, y + 1)
    }
}

/// The grid tiles one blast covers: those within its radius (straight-line
/// distance), clipped to the grid.
pub open spec fn blast_tiles(e: FireballEffect) -> Seq<Point> {
    if e.radius < 0 {
        Seq::empty()
    } else {
        blast_rows(e, 0)
    }
}

/// The tiles of every pending blast, in mailbox order.
pub open spec fn all_blast_tiles(effects: Seq<FireballEffect>) -> Seq<Point>
    decreases effects.len(),
{
    if effects.len() == 0 {
        Seq::empty()
    } else {
        blast_tiles(effects[0]) + all_blast_tiles(effects.drop_first())
    }
}

/// Consumes every pending blast record, returning the tiles each covers, in
/// order, for the rendering collaborator to flash.
pub fn fireball_effects(gs: &mut GameState) -> (tiles: Vec<Point>)
    requires
        old(gs).wf(),
    ensures
        final(gs).wf(),
        tiles@ == all_blast_tiles(old(gs).effects@),
        final(gs).effects@.len() == 0,
        final(gs).actors == old(gs).actors,
        same_world_config(*old(gs), *final(gs)),
        final(gs).move_intents == old(gs).move_intents,
        final(gs).attack_intents == old(gs).attack_intents,
        final(gs).dash_intents == old(gs).dash_intents,
        final(gs).dash_point_intents == old(gs).dash_point_intents,
        final(gs).fireball_intents == old(gs).fireball_intents,
{
    let ghost q = gs.effects@;
    let mut tiles: Vec<Point> = Vec::new();
    let mut qi: usize = 0;
    proof {
        assert(q.skip(0) =~= q);
        assert(tiles@ + all_blast_tiles(q.skip(0)) =~= all_blast_tiles(q));
    }
    while qi < gs.effects.len()
        invariant
            gs.effects@ == q,
            qi <= q.len(),
            tiles@ + all_blast_tiles(q.skip(qi as int)) == all_blast_tiles(q),
        decreases q.len() - qi,
    {
        let e = gs.effects[qi];
        let ghost tail = all_blast_tiles(q.skip(qi as int + 1));
        proof {
            assert(q.skip(qi as int).drop_first() =~= q.skip(qi as int + 1));
            assert(q.skip(qi as int)[0] == q[qi as int]);
            lemma_square_bound(e.radius as int);
        }
        if e.radius >= 0 {
            let r2: i128 = e.radius as i128 * e.radius as i128;
            let mut y: i32 = 0;
            proof {
                assert(tiles@ + (blast_rows(e, 0) + tail) =~= all_blast_tiles(q));
            }
            while y < SCREEN_HEIGHT
                invariant
                    0 <= y <= SCREEN_HEIGHT,
                    r2 == e.radius * e.radius,
                    0 <= e.radius,
                    tiles@ + (blast_rows(e, y as int) + tail) == all_blast_tiles(q),
                decreases SCREEN_HEIGHT - y,
            {
                let mut x: i32 = 0;
                proof {
                    assert(tiles@ + ((blast_row(e, y as int, 0)
                        + blast_rows(e, y as int + 1)) + tail) =~= all_blast_tiles(q));
                }
                while x < SCREEN_WIDTH
                    invariant
                        0 <= y < SCREEN_HEIGHT,
                        0 <= x <= SCREEN_WIDTH,
                        r2 == e.radius * e.radius,
                        0 <= e.radius,
                        tiles@ + ((blast_row(e, y as int, x as int)
                            + blast_rows(e, y as int + 1)) + tail) == all_blast_tiles(q),
                    decreases SCREEN_WIDTH - x,
                {
                    let p = Point { x, y };
                    if dist2(p, e.center) <= r2 {
                        tiles.push(p);
                        proof {
                            assert(blast_row(e, y as int, x as int)
                                =~= seq![p] + blast_row(e, y as int, x as int + 1));
                            assert(tiles@ + ((blast_row(e, y as int, x as int + 1)
                                + blast_rows(e, y as int + 1)) + tail)
                                =~= all_blast_tiles(q));
                        }
                    } else {
                        proof {
                            assert(blast_row(e, y as int, x as int)
                                =~= blast_row(e, y as int, x as int + 1));
                        }
                    }
                    x += 1;
                }
                proof {
                    assert(blast_row(e, y as int, SCREEN_WIDTH as int)
                        =~= Seq::<Point>::empty());
                    assert(tiles@ + (blast_rows(e, y as int + 1) + tail)
                        =~= tiles@ + ((blast_row(e, y as int, SCREEN_WIDTH as int)
                            + blast_rows(e, y as int + 1)) + tail));
                }
                y += 1;
            }
            proof {
                assert(blast_rows(e, SCREEN_HEIGHT as int) =~= Seq::<Point>::empty());
                assert(tiles@ + tail =~= tiles@
                    + (blast_rows(e, SCREEN_HEIGHT as int) + tail));
            }
        } else {
            proof {
                assert(blast_tiles(e) =~= Seq::<Point>::empty());
                assert(tiles@ + tail =~= tiles@ + (blast_tiles(e) + tail));
            }
        }
        qi += 1;
    }
    proof {
        assert(all_blast_tiles(q.skip(q.len() as int)) =~= Seq::<Point>::empty());
        assert(tiles@ =~= tiles@ + all_blast_tiles(q.skip(q.len() as int)));
    }
    gs.effects.clear();
    tiles
}

} // verus!
