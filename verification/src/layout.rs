//! The layout engine: a pure function from an outer rectangle and an ordered
//! entry list to the draw commands that fit inside it.
//!
//! The engine emits a border for the outer rectangle, then walks the entries
//! with a row cursor through the inner region (the outer rectangle inset by a
//! two-column, one-row margin). Each entry takes a title/tag row and a
//! subtitle row; entries other than the last are followed by a blank spacer
//! row and a divider row. Every emission is guarded against the inner
//! region's last row, the cursor only ever advances (saturating, never
//! wrapping), and the walk stops as soon as the cursor leaves the inner
//! region — remaining entries are silently dropped. A footer hint is pinned
//! to the outer rectangle's last row whenever the rectangle has one.
//!
//! `spec_layout` is the mathematical model: `layout` returns exactly its
//! value, so every property below is a statement about both.

use vstd::prelude::*;

use crate::commands::{cmds_view, lemma_cmds_view_add, lemma_cmds_view_push, Alignment, CmdView,
    DrawCommand, StyleRole};
use crate::geometry::Rect;
use crate::menu::MenuEntry;

verus! {

/// Columns of margin between the border and the entry content.
pub const H_MARGIN: u16 = 2;

/// Rows of margin between the border and the entry content.
pub const V_MARGIN: u16 = 1;

/// The footer hint, centred on the outer rectangle's last row.
pub open spec fn footer_text() -> Seq<char> {
    "Press a digit to select, q to quit"@
}

/// A `u16` cursor that has advanced past `u16::MAX` stays there.
pub open spec fn sat16(v: int) -> int {
    if v > u16::MAX { u16::MAX as int } else { v }
}

/// Title fragment: left-aligned across the inner width on `row`.
pub open spec fn title_cmd(inner: Rect, row: int, e: MenuEntry) -> CmdView {
    CmdView::Text {
        row,
        x: inner.x as int,
        width: inner.width as int,
        content: e.title@,
        align: Alignment::Left,
        style: StyleRole::Title,
    }
}

/// Tag fragment: right-aligned on the same row as the title.
pub open spec fn tag_cmd(inner: Rect, row: int, e: MenuEntry) -> CmdView {
    CmdView::Text {
        row,
        x: inner.x as int,
        width: inner.width as int,
        content: e.tag@,
        align: Alignment::Right,
        style: StyleRole::Tag,
    }
}

/// Subtitle line on the row after the title.
pub open spec fn subtitle_cmd(inner: Rect, row: int, e: MenuEntry) -> CmdView {
    CmdView::Text {
        row,
        x: inner.x as int,
        width: inner.width as int,
        content: e.subtitle@,
        align: Alignment::Left,
        style: StyleRole::Subtitle,
    }
}

/// Divider rule between two consecutive entries.
pub open spec fn divider_cmd(inner: Rect, row: int) -> CmdView {
    CmdView::Divider { row, x: inner.x as int, width: inner.width as int }
}

/// Footer hint on the outer rectangle's last row.
pub open spec fn footer_cmd(outer: Rect) -> CmdView {
    CmdView::Text {
        row: outer.y + outer.height - 1,
        x: outer.x as int,
        width: outer.width as int,
        content: footer_text(),
        align: Alignment::Center,
        style: StyleRole::Footer,
    }
}

/// The commands one entry contributes when the cursor stands at `y`:
/// title and tag on `y`, subtitle on `y + 1`, and — unless the entry is the
/// last — a divider on `y + 3` (row `y + 2` is the blank spacer). Each row is
/// emitted only while it lies within the inner region.
pub open spec fn entry_cmds(inner: Rect, y: int, e: MenuEntry, last: bool) -> Seq<CmdView> {
    let y_max = inner.y + inner.height - 1;
    (if y <= y_max {
        seq![title_cmd(inner, y, e), tag_cmd(inner, y, e)]
    } else {
        Seq::<CmdView>::empty()
    }) + (if y + 1 <= y_max {
        seq![subtitle_cmd(inner, y + 1, e)]
    } else {
        Seq::<CmdView>::empty()
    }) + (if !last && y + 3 <= y_max {
        seq![divider_cmd(inner, y + 3)]
    } else {
        Seq::<CmdView>::empty()
    })
}

/// How far the cursor advances over one entry: two rows for the last entry,
/// four (title, subtitle, spacer, divider) for any other.
pub open spec fn entry_advance(last: bool) -> int {
    if last { 2 } else { 4 }
}

/// The fold of the cursor over the entry list: each entry's commands in
/// order, stopping as soon as the advanced cursor has left the inner region
/// (entries after that point contribute nothing).
pub open spec fn entries_cmds(inner: Rect, y: int, entries: Seq<MenuEntry>) -> Seq<CmdView>
    decreases entries.len(),
{
    if entries.len() == 0 {
        Seq::<CmdView>::empty()
    } else {
        let last = entries.len() == 1;
        let here = entry_cmds(inner, y, entries[0], last);
        let y2 = y + entry_advance(last);
        if y2 > inner.y + inner.height - 1 {
            here
        } else {
            here + entries_cmds(inner, y2, entries.skip(1))
        }
    }
}

/// The full command sequence for one frame: the border, then the entry walk
/// through the inner region (skipped entirely when the inner region has no
/// rows), then the footer whenever the outer rectangle has a last row.
pub open spec fn spec_layout(outer: Rect, entries: Seq<MenuEntry>) -> Seq<CmdView> {
    let inner = outer.spec_inset(H_MARGIN, V_MARGIN);
    seq![CmdView::Border(outer)] + (if inner.height == 0 {
        Seq::<CmdView>::empty()
    } else {
        entries_cmds(inner, inner.y as int, entries)
    }) + (if outer.height > 0 {
        seq![footer_cmd(outer)]
    } else {
        Seq::<CmdView>::empty()
    })
}

/// The footer hint as an owned string.
fn footer_content() -> (r: String)
    ensures
        r@ == footer_text(),
{
    "Press a digit to select, q to quit".to_owned()
}

/// Advance the cursor by one row, clamping at the top of the `u16` range
/// instead of wrapping.
fn advance(y: u16) -> (r: u16)
    ensures
        r as int == sat16(y + 1),
{
    y.saturating_add(1)
}

/// Lay the entries out inside `outer`: exactly the commands of
/// `spec_layout`, in their order. A pure function of its inputs — no hidden
/// state — that never panics and never places a row outside `outer`, however
/// small the rectangle is.
pub fn layout(outer: Rect, entries: &Vec<MenuEntry>) -> (r: Vec<DrawCommand>)
    requires
        outer.wf(),
    ensures
        cmds_view(r@) == spec_layout(outer, entries@),
{
    let mut body: Vec<DrawCommand> = Vec::new();
    let inner = outer.inset(H_MARGIN, V_MARGIN);
    if inner.height > 0 {
        let y_max: u16 = inner.y + inner.height - 1;
        let mut y: u16 = inner.y;
        let ghost mut gy: int = inner.y as int;
        let mut i: usize = 0;
        let mut done = false;
        proof {
            assert(entries@.skip(0) =~= entries@);
            assert(cmds_view(body@) =~= Seq::<CmdView>::empty());
            assert(entries_cmds(inner, inner.y as int, entries@) =~~= cmds_view(body@)
                + entries_cmds(inner, gy, entries@.skip(i as int)));
        }
        while i < entries.len() && !done
            invariant
                outer.wf(),
                inner == outer.spec_inset(H_MARGIN, V_MARGIN),
                inner.wf(),
                inner.height > 0,
                y_max == inner.y + inner.height - 1,
                y_max <= 65534,
                i <= entries@.len(),
                gy >= inner.y,
                y as int == sat16(gy),
                entries_cmds(inner, inner.y as int, entries@) == cmds_view(body@) + (if done {
                    Seq::<CmdView>::empty()
                } else {
                    entries_cmds(inner, gy, entries@.skip(i as int))
                }),
            decreases entries@.len() - i,
        {
            let ghost gy0 = gy;
            let ghost body0 = body@;
            let ghost rest = entries@.skip(i as int);
            let last = i + 1 == entries.len();
            proof {
                assert(rest.len() == entries@.len() - i);
                assert(rest[0] == entries@[i as int]);
            }

            // Title and tag share the cursor row.
            if y <= y_max {
                let title = entries[i].title.clone();
                body.push(DrawCommand::Text {
                    row: y,
                    x: inner.x,
                    width: inner.width,
                    content: title,
                    align: Alignment::Left,
                    style: StyleRole::Title,
                });
                proof {
                    lemma_cmds_view_push(body0, DrawCommand::Text {
                        row: y,
                        x: inner.x,
                        width: inner.width,
                        content: entries@[i as int].title,
                        align: Alignment::Left,
                        style: StyleRole::Title,
                    });
                }
                let tag = entries[i].tag.clone();
                body.push(DrawCommand::Text {
                    row: y,
                    x: inner.x,
                    width: inner.width,
                    content: tag,
                    align: Alignment::Right,
                    style: StyleRole::Tag,
                });
            }
            y = advance(y);
            proof {
                gy = gy0 + 1;
            }

            // Subtitle row; the cursor advances whether or not it was drawn.
            if y <= y_max {
                let subtitle = entries[i].subtitle.clone();
                body.push(DrawCommand::Text {
                    row: y,
                    x: inner.x,
                    width: inner.width,
                    content: subtitle,
                    align: Alignment::Left,
                    style: StyleRole::Subtitle,
                });
            }
            y = advance(y);
            proof {
                gy = gy0 + 2;
            }

            if !last {
                // Blank spacer row: consumes space, draws nothing.
                y = advance(y);
                proof {
                    gy = gy0 + 3;
                }
                // Divider between this entry and the next.
                if y <= y_max {
                    body.push(DrawCommand::Divider { row: y, x: inner.x, width: inner.width });
                }
                y = advance(y);
                proof {
                    gy = gy0 + 4;
                }
                if y > y_max {
                    done = true;
                }
            }
            i += 1;

            proof {
                let here = entry_cmds(inner, gy0, rest[0], last);
                assert(cmds_view(body@) =~~= cmds_view(body0) + here);
                assert(rest.skip(1) =~= entries@.skip(i as int));
                if last {
                    assert(entries_cmds(inner, gy0, rest) =~~= here + (if gy0 + 2
                        > y_max {
                        Seq::<CmdView>::empty()
                    } else {
                        entries_cmds(inner, gy0 + 2, rest.skip(1))
                    }));
                    assert(entries@.skip(i as int).len() == 0);
                    assert(entries_cmds(inner, gy, entries@.skip(i as int))
                        == Seq::<CmdView>::empty());
                    assert(entries_cmds(inner, gy0, rest) =~~= here);
                } else {
                    assert(entries_cmds(inner, gy0, rest) == here + (if gy0 + 4 > y_max {
                        Seq::<CmdView>::empty()
                    } else {
                        entries_cmds(inner, gy0 + 4, rest.skip(1))
                    }));
                }
                assert(entries_cmds(inner, inner.y as int, entries@) =~~= cmds_view(body@) + (
                if done {
                    Seq::<CmdView>::empty()
                } else {
                    entries_cmds(inner, gy, entries@.skip(i as int))
                }));
            }
        }
        proof {
            if !done {
                assert(entries@.skip(i as int) =~= Seq::<MenuEntry>::empty());
            }
            assert(entries_cmds(inner, inner.y as int, entries@) =~~= cmds_view(body@));
        }
    } else {
        proof {
            assert(cmds_view(body@) =~= Seq::<CmdView>::empty());
        }
    }

    let mut cmds: Vec<DrawCommand> = Vec::new();
    cmds.push(DrawCommand::Border(outer));
    let ghost with_border = cmds@;
    let ghost body_final = body@;
    cmds.append(&mut body);
    proof {
        lemma_cmds_view_add(with_border, body_final);
    }
    if outer.height > 0 {
        let ghost before_footer = cmds@;
        let footer_row = outer.y + outer.height - 1;
        cmds.push(DrawCommand::Text {
            row: footer_row,
            x: outer.x,
            width: outer.width,
            content: footer_content(),
            align: Alignment::Center,
            style: StyleRole::Footer,
        });
        proof {
            assert(cmds_view(cmds@) =~~= cmds_view(before_footer).push(cmds@[cmds@.len()
                - 1]@));
        }
    }
    proof {
        assert(cmds_view(cmds@) =~~= spec_layout(outer, entries@));
    }
    cmds
}

/// Every command of the entry walk draws on a row of the inner region and
/// starts at its first column.
pub proof fn lemma_entries_cmds_rows(inner: Rect, y: int, entries: Seq<MenuEntry>)
    requires
        inner.height > 0,
        y >= inner.y,
    ensures
        forall|j: int|
            0 <= j < entries_cmds(inner, y, entries).len() ==> {
                let c = #[trigger] entries_cmds(inner, y, entries)[j];
                inner.y <= c.display_row() <= inner.y + inner.height - 1 && c.display_col()
                    == inner.x && (c.is_text() || c.is_divider())
            },
    decreases entries.len(),
{
    if entries.len() > 0 {
        let y_max = inner.y + inner.height - 1;
        let last = entries.len() == 1;
        let here = entry_cmds(inner, y, entries[0], last);
        let y2 = y + entry_advance(last);
        assert forall|j: int| 0 <= j < here.len() implies {
            let c = #[trigger] here[j];
            inner.y <= c.display_row() <= y_max && c.display_col() == inner.x && (c.is_text()
                || c.is_divider())
        } by {
            assert(here[j] == entry_cmds(inner, y, entries[0], last)[j]);
        }
        if y2 <= y_max {
            lemma_entries_cmds_rows(inner, y2, entries.skip(1));
        }
    }
}

/// Law: the layout never leaves the outer rectangle. Every text and divider
/// command lies on one of `outer`'s rows, and the only border drawn is
/// `outer`'s own.
pub proof fn lemma_layout_rows_in_bounds(outer: Rect, entries: Seq<MenuEntry>)
    requires
        outer.wf(),
    ensures
        forall|j: int|
            0 <= j < spec_layout(outer, entries).len() ==> {
                let c = #[trigger] spec_layout(outer, entries)[j];
                ((c.is_text() || c.is_divider()) ==> outer.contains_row(c.display_row()))
                    && (c.is_border() ==> c == CmdView::Border(outer))
            },
{
    let inner = outer.spec_inset(H_MARGIN, V_MARGIN);
    assert(inner.y >= outer.y);
    assert(inner.y + inner.height <= outer.y + outer.height);
    if inner.height > 0 {
        lemma_entries_cmds_rows(inner, inner.y as int, entries);
    }
}

/// Law: an inner region with no rows yields no entry-derived commands at
/// all — only the border, and the footer whenever the outer rectangle has a
/// last row.
pub proof fn lemma_layout_empty_inner(outer: Rect, entries: Seq<MenuEntry>)
    requires
        outer.spec_inset(H_MARGIN, V_MARGIN).height == 0,
    ensures
        outer.height > 0 ==> spec_layout(outer, entries) == seq![
            CmdView::Border(outer),
            footer_cmd(outer),
        ],
        outer.height == 0 ==> spec_layout(outer, entries) == seq![CmdView::Border(outer)],
{
    if outer.height > 0 {
        assert(spec_layout(outer, entries) =~~= seq![CmdView::Border(outer), footer_cmd(outer)]);
    } else {
        assert(spec_layout(outer, entries) =~~= seq![CmdView::Border(outer)]);
    }
}

/// Law: the layout is deterministic. The commands are a function of the
/// outer rectangle and the entry list alone — `layout` pins its result to
/// `spec_layout`, so two calls on identical inputs return identical command
/// sequences.
pub proof fn lemma_layout_deterministic(
    outer: Rect,
    entries: Seq<MenuEntry>,
    first: Seq<CmdView>,
    second: Seq<CmdView>,
)
    requires
        first == spec_layout(outer, entries),
        second == spec_layout(outer, entries),
    ensures
        first == second,
{
}

/// The four commands of an entry that fits entirely, cursor at `y`.
pub open spec fn full_entry_cmds(inner: Rect, y: int, e: MenuEntry) -> Seq<CmdView> {
    seq![
        title_cmd(inner, y, e),
        tag_cmd(inner, y, e),
        subtitle_cmd(inner, y + 1, e),
        divider_cmd(inner, y + 3),
    ]
}

/// The commands of a run of entries that all fit entirely, each one four
/// rows below the one before.
pub open spec fn full_entries_cmds(inner: Rect, y: int, entries: Seq<MenuEntry>) -> Seq<CmdView>
    decreases entries.len(),
{
    if entries.len() == 0 {
        Seq::<CmdView>::empty()
    } else {
        full_entry_cmds(inner, y, entries[0]) + full_entries_cmds(inner, y + 4, entries.skip(1))
    }
}

/// Truncation, over the entry walk: when the space below the cursor is
/// exactly the four rows times `k` that `k` non-final entries need, the walk
/// renders the first `k` entries entirely — title, tag, subtitle, divider —
/// and the remaining entries contribute nothing.
pub proof fn lemma_entries_cmds_truncates(inner: Rect, y: int, entries: Seq<MenuEntry>, k: int)
    requires
        1 <= k < entries.len(),
        y == inner.y + inner.height - 4 * k,
        y >= inner.y,
    ensures
        entries_cmds(inner, y, entries) == full_entries_cmds(inner, y, entries.take(k)),
    decreases k,
{
    let y_max = inner.y + inner.height - 1;
    let here = entry_cmds(inner, y, entries[0], false);
    assert(here =~= full_entry_cmds(inner, y, entries[0]));
    if k == 1 {
        assert(entries_cmds(inner, y, entries) == here);
        let t1 = entries.take(1);
        assert(t1.len() == 1);
        assert(t1[0] == entries[0]);
        assert(t1.skip(1) =~= Seq::<MenuEntry>::empty());
        assert(full_entries_cmds(inner, y + 4, t1.skip(1)) == Seq::<CmdView>::empty());
        assert(full_entries_cmds(inner, y, t1) == full_entry_cmds(inner, y, t1[0])
            + full_entries_cmds(inner, y + 4, t1.skip(1)));
        assert(full_entry_cmds(inner, y, t1[0]) == here);
        assert(full_entries_cmds(inner, y, t1) =~= here);
    } else {
        lemma_entries_cmds_truncates(inner, y + 4, entries.skip(1), k - 1);
        assert(entries.skip(1).take(k - 1) =~= entries.take(k).skip(1));
        assert(entries.take(k)[0] == entries[0]);
        assert(entries_cmds(inner, y, entries) == here + entries_cmds(
            inner,
            y + 4,
            entries.skip(1),
        ));
        assert(full_entries_cmds(inner, y, entries.take(k)) == full_entry_cmds(
            inner,
            y,
            entries.take(k)[0],
        ) + full_entries_cmds(inner, y + 4, entries.take(k).skip(1)));
    }
}

/// Law: truncation is clean. With an inner region of exactly `4 * k` rows
/// and more than `k` entries, the layout consists of the border, the first
/// `k` entries rendered entirely, and the footer; entries beyond the first
/// `k` produce zero commands, so the layout equals that of the first `k + 1`
/// entries alone.
pub proof fn lemma_layout_truncates(outer: Rect, entries: Seq<MenuEntry>, k: int)
    requires
        outer.wf(),
        1 <= k < entries.len(),
        outer.spec_inset(H_MARGIN, V_MARGIN).height == 4 * k,
    ensures
        spec_layout(outer, entries) == seq![CmdView::Border(outer)] + full_entries_cmds(
            outer.spec_inset(H_MARGIN, V_MARGIN),
            outer.spec_inset(H_MARGIN, V_MARGIN).y as int,
            entries.take(k),
        ) + (if outer.height > 0 {
            seq![footer_cmd(outer)]
        } else {
            Seq::<CmdView>::empty()
        }),
        spec_layout(outer, entries) == spec_layout(outer, entries.take(k + 1)),
{
    let inner = outer.spec_inset(H_MARGIN, V_MARGIN);
    lemma_entries_cmds_truncates(inner, inner.y as int, entries, k);
    lemma_entries_cmds_truncates(inner, inner.y as int, entries.take(k + 1), k);
    assert(entries.take(k + 1).take(k) =~= entries.take(k));
}

} // verus!
