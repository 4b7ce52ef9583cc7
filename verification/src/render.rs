//! The renderer's pure half: clipping a command list to the surface that is
//! actually present at draw time.
//!
//! The terminal may have been resized between layout and render, so the
//! commands are filtered against the surface's current dimensions: a command
//! whose row or first column lies outside the surface is a no-op, never an
//! error. The surviving commands keep their order — nothing is reordered or
//! deduplicated — and the side-effecting half (writing styled text through a
//! concrete terminal) consumes them one by one outside this crate.

use vstd::prelude::*;

use crate::commands::{cmds_view, CmdView, DrawCommand};

verus! {

/// A command draws something on a `width`-by-`height` surface exactly when
/// its row and first column lie inside it.
pub open spec fn visible(width: int, height: int, c: CmdView) -> bool {
    c.display_row() < height && c.display_col() < width
}

/// The commands that survive clipping, in their original order.
pub open spec fn visible_cmds(width: int, height: int, s: Seq<CmdView>) -> Seq<CmdView>
    decreases s.len(),
{
    if s.len() == 0 {
        Seq::<CmdView>::empty()
    } else {
        let rest = visible_cmds(width, height, s.drop_last());
        if visible(width, height, s.last()) {
            rest.push(s.last())
        } else {
            rest
        }
    }
}

/// Law: a surface with no rows shows nothing — whatever the commands, the
/// clipped list is empty. (Rows are cell coordinates, so none is negative.)
pub proof fn lemma_zero_height_hides_all(width: int, s: Seq<CmdView>)
    requires
        forall|j: int| 0 <= j < s.len() ==> (#[trigger] s[j]).display_row() >= 0,
    ensures
        visible_cmds(width, 0, s) == Seq::<CmdView>::empty(),
    decreases s.len(),
{
    if s.len() > 0 {
        lemma_zero_height_hides_all(width, s.drop_last());
        assert(!visible(width, 0, s.last()));
    }
}

/// Clip `cmds` to a `width`-by-`height` surface: exactly the visible
/// commands, in the order they were produced. On a surface with zero height
/// nothing at all is kept.
pub fn render_plan(width: u16, height: u16, cmds: Vec<DrawCommand>) -> (r: Vec<DrawCommand>)
    ensures
        cmds_view(r@) == visible_cmds(width as int, height as int, cmds_view(cmds@)),
        height == 0 ==> r@.len() == 0,
{
    let mut kept: Vec<DrawCommand> = Vec::new();
    let mut rest = cmds;
    let ghost orig = rest@;
    let ghost taken: int = 0;
    proof {
        assert(orig.take(0) =~= Seq::<DrawCommand>::empty());
        assert(cmds_view(orig.take(0)) =~= Seq::<CmdView>::empty());
        assert(cmds_view(kept@) =~= Seq::<CmdView>::empty());
    }
    while rest.len() > 0
        invariant
            orig.skip(taken) == rest@,
            0 <= taken <= orig.len(),
            taken == orig.len() - rest@.len(),
            cmds_view(kept@) == visible_cmds(width as int, height as int, cmds_view(
                orig.take(taken),
            )),
        decreases rest@.len(),
    {
        let ghost taken0 = taken;
        let ghost kept0 = kept@;
        let c = rest.remove(0);
        let keep = match &c {
            DrawCommand::Border(rect) => rect.y < height && rect.x < width,
            DrawCommand::Text { row, x, .. } => *row < height && *x < width,
            DrawCommand::Divider { row, x, .. } => *row < height && *x < width,
        };
        if keep {
            kept.push(c);
        }
        proof {
            taken = taken0 + 1;
            assert(orig.skip(taken0)[0] == orig[taken0]);
            assert(orig.skip(taken0).remove(0) =~= orig.skip(taken));
            assert(keep == visible(width as int, height as int, orig[taken0]@));
            let prefix = cmds_view(orig.take(taken));
            assert(orig.take(taken).drop_last() =~= orig.take(taken0));
            assert(prefix.drop_last() =~= cmds_view(orig.take(taken0)));
            assert(prefix.last() == orig[taken0]@);
            assert(prefix.len() > 0);
            assert(visible_cmds(width as int, height as int, prefix) == (
            if visible(width as int, height as int, prefix.last()) {
                visible_cmds(width as int, height as int, prefix.drop_last()).push(prefix.last())
            } else {
                visible_cmds(width as int, height as int, prefix.drop_last())
            }));
            if keep {
                assert(cmds_view(kept@) =~~= cmds_view(kept0).push(orig[taken0]@));
            }
        }
    }
    proof {
        assert(orig.take(taken) =~= orig);
        if height == 0 {
            assert(forall|j: int|
                0 <= j < cmds_view(orig).len() ==> (#[trigger] cmds_view(orig)[j]).display_row()
                    >= 0);
            lemma_zero_height_hides_all(width as int, cmds_view(orig));
        }
    }
    kept
}

} // verus!
