//! The render engine: a pure translation of session state into a sequence of
//! terminal draw operations. The caller performs them in order. Every redraw
//! of the result list first clears everything below the query line and ends
//! by restoring the cursor to the saved query-edit position — also when
//! rendering a row's template fails partway.

use vstd::prelude::*;

use crate::digits::{decimal_text, usize_to_text};
use crate::results::{entries_view, EntryView, ResultEntry};
use crate::trusted::{display_render, opt_str_view, render_display_template, template_ok};

verus! {

/// One terminal draw operation.
pub enum DrawOp {
    /// Save the cursor position.
    SaveCursor,
    /// Restore the saved cursor position.
    RestoreCursor,
    /// Move the cursor to column zero of its line.
    CarriageReturn,
    /// Move the cursor right by this many columns.
    MoveRight(u16),
    /// Clear everything from the cursor to the end of the screen.
    ClearBelow,
    /// Clear from the cursor to the end of the line.
    ClearLine,
    /// Move to the start of the next line.
    Newline,
    /// Start highlighting (inverted colors) for the selected row.
    HighlightOn,
    /// Stop highlighting.
    HighlightOff,
    /// Write this text at the cursor.
    Text(String),
}

/// The mathematical value of a draw operation.
pub enum DrawOpView {
    SaveCursor,
    RestoreCursor,
    CarriageReturn,
    MoveRight(int),
    ClearBelow,
    ClearLine,
    Newline,
    HighlightOn,
    HighlightOff,
    Text(Seq<char>),
}

impl View for DrawOp {
    type V = DrawOpView;

    open spec fn view(&self) -> DrawOpView {
        match self {
            DrawOp::SaveCursor => DrawOpView::SaveCursor,
            DrawOp::RestoreCursor => DrawOpView::RestoreCursor,
            DrawOp::CarriageReturn => DrawOpView::CarriageReturn,
            DrawOp::MoveRight(n) => DrawOpView::MoveRight(*n as int),
            DrawOp::ClearBelow => DrawOpView::ClearBelow,
            DrawOp::ClearLine => DrawOpView::ClearLine,
            DrawOp::Newline => DrawOpView::Newline,
            DrawOp::HighlightOn => DrawOpView::HighlightOn,
            DrawOp::HighlightOff => DrawOpView::HighlightOff,
            DrawOp::Text(s) => DrawOpView::Text(s@),
        }
    }
}

/// The draw operations a `Vec<DrawOp>` stands for.
pub open spec fn ops_view(ops: Seq<DrawOp>) -> Seq<DrawOpView> {
    ops.map_values(|o: DrawOp| o@)
}

/// The fixed prefix of the query line.
pub open spec fn prefix_text() -> Seq<char> {
    "Search > "@
}

/// The fixed prefix of the query line, as drawn before the session starts.
pub fn query_prefix() -> (r: &'static str)
    ensures
        r@ == prefix_text(),
{
    "Search > "
}

/// Operations drawn once at session start: the prefix, then save the
/// query-edit cursor position.
pub open spec fn spec_prompt_ops() -> Seq<DrawOpView> {
    seq![DrawOpView::Text(prefix_text()), DrawOpView::SaveCursor]
}

pub fn prompt_ops() -> (r: Vec<DrawOp>)
    ensures
        ops_view(r@) == spec_prompt_ops(),
{
    let mut ops: Vec<DrawOp> = Vec::new();
    ops.push(DrawOp::Text("Search > ".to_owned()));
    ops.push(DrawOp::SaveCursor);
    proof {
        assert(ops_view(ops@) =~= spec_prompt_ops());
    }
    ops
}

/// Operations performed on every termination path, before control returns:
/// column zero, then clear everything below.
pub open spec fn spec_cleanup_ops() -> Seq<DrawOpView> {
    seq![DrawOpView::CarriageReturn, DrawOpView::ClearBelow]
}

pub fn cleanup_ops() -> (r: Vec<DrawOp>)
    ensures
        ops_view(r@) == spec_cleanup_ops(),
{
    let mut ops: Vec<DrawOp> = Vec::new();
    ops.push(DrawOp::CarriageReturn);
    ops.push(DrawOp::ClearBelow);
    proof {
        assert(ops_view(ops@) =~= spec_cleanup_ops());
    }
    ops
}

/// The query line redraw: back to the saved position, column zero, skip the
/// prefix, clear the rest of the line, write the query, save the position
/// again — so repeated redraws never shift later lines.
pub open spec fn spec_query_line(q: Seq<char>) -> Seq<DrawOpView> {
    seq![
        DrawOpView::RestoreCursor,
        DrawOpView::CarriageReturn,
        DrawOpView::MoveRight(prefix_text().len() as int),
        DrawOpView::ClearLine,
        DrawOpView::Text(q),
        DrawOpView::SaveCursor,
    ]
}

pub fn query_line_ops(query: &str) -> (r: Vec<DrawOp>)
    ensures
        ops_view(r@) == spec_query_line(query@),
{
    proof {
        reveal_strlit("Search > ");
    }
    let mut ops: Vec<DrawOp> = Vec::new();
    ops.push(DrawOp::RestoreCursor);
    ops.push(DrawOp::CarriageReturn);
    ops.push(DrawOp::MoveRight(9));
    ops.push(DrawOp::ClearLine);
    ops.push(DrawOp::Text(query.to_owned()));
    ops.push(DrawOp::SaveCursor);
    proof {
        assert(ops_view(ops@) =~= spec_query_line(query@));
    }
    ops
}

/// How many result rows fit: the terminal height less two lines, never
/// negative.
pub open spec fn max_visible_rows(h: u16) -> int {
    if h <= 2 {
        0
    } else {
        h - 2
    }
}

/// The text of one display row: the display template rendered against the
/// entry's fields and its absolute and window positions, zero- and
/// one-based, each as decimal text.
pub open spec fn row_text(tpl: Seq<char>, e: EntryView, abs: int, disp: int) -> Result<
    Seq<char>,
    Seq<char>,
> {
    display_render(
        tpl,
        e.identifier,
        e.title,
        e.confidence,
        decimal_text(abs),
        decimal_text(abs + 1),
        decimal_text(disp),
        decimal_text(disp + 1),
    )
}

/// The operations that frame one successfully rendered row; the first
/// visible row is the selected entry and is highlighted.
pub open spec fn row_frame(j: int, txt: Seq<char>) -> Seq<DrawOpView> {
    if j == 0 {
        seq![
            DrawOpView::Newline,
            DrawOpView::HighlightOn,
            DrawOpView::ClearLine,
            DrawOpView::Text(txt),
            DrawOpView::HighlightOff,
        ]
    } else {
        seq![DrawOpView::Newline, DrawOpView::ClearLine, DrawOpView::Text(txt)]
    }
}

/// The operations already written when a row's template fails: the row
/// break, and the highlight if it was the selected row.
pub open spec fn partial_frame(j: int) -> Seq<DrawOpView> {
    if j == 0 {
        seq![DrawOpView::Newline, DrawOpView::HighlightOn]
    } else {
        seq![DrawOpView::Newline]
    }
}

/// The operations for rows `j..nrows`, and the failure text of the first row
/// whose template did not render, if any. Row `j` shows the entry at
/// `(sel + j) % rs.len()`: the window rotates so the selected entry is row
/// zero.
pub open spec fn rows_ops(
    tpl: Seq<char>,
    rs: Seq<EntryView>,
    sel: int,
    nrows: int,
    j: int,
) -> (Seq<DrawOpView>, Option<Seq<char>>)
    recommends
        rs.len() > 0,
    decreases nrows - j,
{
    if j < 0 || j >= nrows || rs.len() <= 0 {
        (Seq::empty(), None)
    } else {
        let abs = (sel + j) % (rs.len() as int);
        match row_text(tpl, rs[abs], abs, j) {
            Ok(txt) => {
                let rest = rows_ops(tpl, rs, sel, nrows, j + 1);
                (row_frame(j, txt) + rest.0, rest.1)
            },
            Err(m) => (partial_frame(j), Some(m)),
        }
    }
}

/// Law: with a non-empty result set and at least one visible row, the first
/// visible row shows the selected entry, and it alone is highlighted; if its
/// template fails, that failure is the one reported.
pub proof fn lemma_selected_entry_heads_the_window(
    tpl: Seq<char>,
    rs: Seq<EntryView>,
    sel: int,
    nrows: int,
)
    requires
        0 < nrows,
        0 <= sel < rs.len(),
    ensures
        ({
            let rows = rows_ops(tpl, rs, sel, nrows, 0);
            match row_text(tpl, rs[sel], sel, 0) {
                Ok(txt) => rows.0.len() >= 5 && rows.0.subrange(0, 5) == row_frame(0, txt),
                Err(m) => rows.0 == partial_frame(0) && rows.1 == Some(m),
            }
        }),
{
    vstd::arithmetic::div_mod::lemma_small_mod(sel as nat, rs.len() as nat);
    let rows = rows_ops(tpl, rs, sel, nrows, 0);
    match row_text(tpl, rs[sel], sel, 0) {
        Ok(txt) => {
            assert(rows.0.subrange(0, 5) =~= row_frame(0, txt));
        },
        Err(_) => {},
    }
}

/// The whole result-list redraw: clear below, then nothing for no results
/// yet, a fixed message for an empty result set, or the visible rows; always
/// ending by restoring the saved cursor position.
pub open spec fn spec_render(
    tpl: Seq<char>,
    results: Option<Seq<EntryView>>,
    sel: int,
    h: u16,
) -> (Seq<DrawOpView>, Option<Seq<char>>) {
    match results {
        None => (seq![DrawOpView::ClearBelow, DrawOpView::RestoreCursor], None),
        Some(rs) => if rs.len() == 0 {
            (
                seq![
                    DrawOpView::ClearBelow,
                    DrawOpView::Newline,
                    DrawOpView::Text("no entries found"@),
                    DrawOpView::RestoreCursor,
                ],
                None,
            )
        } else {
            let nrows = if rs.len() as int <= max_visible_rows(h) {
                rs.len() as int
            } else {
                max_visible_rows(h)
            };
            let rows = rows_ops(tpl, rs, sel, nrows, 0);
            (seq![DrawOpView::ClearBelow] + rows.0 + seq![DrawOpView::RestoreCursor], rows.1)
        },
    }
}

/// The result set a state holds, as a mathematical value.
pub open spec fn results_view(r: Option<Vec<ResultEntry>>) -> Option<Seq<EntryView>> {
    match r {
        Some(rs) => Some(entries_view(rs@)),
        None => None,
    }
}

/// Redraw the result list: the draw operations, and the failure text of the
/// first row whose template did not render, if any. Even then the
/// operations end by restoring the cursor. The display template must be one
/// the engine accepts (see `template_ok`); the caller tests with
/// `template_admissible` first.
pub fn render_results(
    tpl: &str,
    results: &Option<Vec<ResultEntry>>,
    selected: usize,
    height: u16,
) -> (r: (Vec<DrawOp>, Option<String>))
    requires
        template_ok(tpl@),
        match *results {
            Some(rs) => rs@.len() == 0 || selected < rs@.len(),
            None => true,
        },
    ensures
        ops_view(r.0@) == spec_render(tpl@, results_view(*results), selected as int, height).0,
        opt_str_view(r.1) == spec_render(tpl@, results_view(*results), selected as int, height).1,
        ops_view(r.0@).len() > 0 && ops_view(r.0@).last() == DrawOpView::RestoreCursor,
{
    let mut ops: Vec<DrawOp> = Vec::new();
    ops.push(DrawOp::ClearBelow);
    match results {
        None => {
            ops.push(DrawOp::RestoreCursor);
            proof {
                assert(ops_view(ops@) =~= spec_render(
                    tpl@,
                    results_view(*results),
                    selected as int,
                    height,
                ).0);
            }
            (ops, None)
        },
        Some(rs) => {
            if rs.len() == 0 {
                ops.push(DrawOp::Newline);
                ops.push(DrawOp::Text("no entries found".to_owned()));
                ops.push(DrawOp::RestoreCursor);
                proof {
                    assert(ops_view(ops@) =~= spec_render(
                        tpl@,
                        results_view(*results),
                        selected as int,
                        height,
                    ).0);
                }
                (ops, None)
            } else {
                let count = rs.len();
                let maxv: usize = if height <= 2 {
                    0
                } else {
                    (height - 2) as usize
                };
                let nrows: usize = if count <= maxv {
                    count
                } else {
                    maxv
                };
                let ghost tv = tpl@;
                let ghost rsv = entries_view(rs@);
                let ghost sel = selected as int;
                let ghost n = nrows as int;
                let mut j: usize = 0;
                let mut err: Option<String> = None;
                loop
                    invariant_except_break
                        err is None,
                        rows_ops(tv, rsv, sel, n, 0).0 =~= ops_view(ops@).skip(1) + rows_ops(
                            tv,
                            rsv,
                            sel,
                            n,
                            j as int,
                        ).0,
                        rows_ops(tv, rsv, sel, n, 0).1 == rows_ops(tv, rsv, sel, n, j as int).1,
                    invariant
                        0 <= j <= nrows,
                        nrows <= count,
                        count == rs@.len(),
                        rsv == entries_view(rs@),
                        tv == tpl@,
                        sel == selected as int,
                        n == nrows as int,
                        count > 0,
                        selected < count,
                        template_ok(tv),
                        ops_view(ops@).len() >= 1,
                        ops_view(ops@)[0] == DrawOpView::ClearBelow,
                    ensures
                        ops_view(ops@).skip(1) =~= rows_ops(tv, rsv, sel, n, 0).0,
                        opt_str_view(err) == rows_ops(tv, rsv, sel, n, 0).1,
                        ops_view(ops@)[0] == DrawOpView::ClearBelow,
                        ops_view(ops@).len() >= 1,
                    decreases nrows - j,
                {
                    if j >= nrows {
                        break ;
                    }
                    let ghost ops_before = ops_view(ops@);
                    ops.push(DrawOp::Newline);
                    if j == 0 {
                        ops.push(DrawOp::HighlightOn);
                    }
                    // the entry shown on row j: (selected + j) % count, without overflow
                    let rem = count - selected;
                    let abs: usize = if j < rem {
                        selected + j
                    } else {
                        j - rem
                    };
                    proof {
                        if j < rem {
                            vstd::arithmetic::div_mod::lemma_small_mod(
                                (selected + j) as nat,
                                count as nat,
                            );
                        } else {
                            vstd::arithmetic::div_mod::lemma_mod_multiples_vanish(
                                1,
                                sel + j - count,
                                count as int,
                            );
                            vstd::arithmetic::div_mod::lemma_small_mod(
                                (sel + j - count) as nat,
                                count as nat,
                            );
                        }
                        assert(abs as int == (sel + j) % (count as int));
                    }
                    let entry = &rs[abs];
                    let i0 = usize_to_text(abs);
                    let i1 = usize_to_text(abs + 1);
                    let d0 = usize_to_text(j);
                    let d1 = usize_to_text(j + 1);
                    proof {
                        assert(rsv[abs as int] == rs@[abs as int]@);
                    }
                    match render_display_template(
                        tpl,
                        entry.identifier.as_str(),
                        entry.title.as_str(),
                        entry.confidence.as_str(),
                        i0.as_str(),
                        i1.as_str(),
                        d0.as_str(),
                        d1.as_str(),
                    ) {
                        Ok(txt) => {
                            let ghost txtv = txt@;
                            ops.push(DrawOp::ClearLine);
                            ops.push(DrawOp::Text(txt));
                            if j == 0 {
                                ops.push(DrawOp::HighlightOff);
                            }
                            proof {
                                assert(row_text(tv, rsv[abs as int], abs as int, j as int) == Ok::<
                                    Seq<char>,
                                    Seq<char>,
                                >(txtv));
                                assert(rows_ops(tv, rsv, sel, n, j as int).0 == row_frame(
                                    j as int,
                                    txtv,
                                ) + rows_ops(tv, rsv, sel, n, j as int + 1).0);
                                assert(ops_view(ops@).skip(1) =~= ops_before.skip(1) + row_frame(
                                    j as int,
                                    txtv,
                                ));
                                assert(rows_ops(tv, rsv, sel, n, 0).0 =~= ops_view(ops@).skip(1)
                                    + rows_ops(tv, rsv, sel, n, j as int + 1).0);
                            }
                            j = j + 1;
                        },
                        Err(m) => {
                            let ghost mv = m@;
                            err = Some(m);
                            proof {
                                assert(row_text(tv, rsv[abs as int], abs as int, j as int) == Err::<
                                    Seq<char>,
                                    Seq<char>,
                                >(mv));
                                assert(rows_ops(tv, rsv, sel, n, j as int) == (
                                    partial_frame(j as int),
                                    Some(mv),
                                ));
                                assert(ops_view(ops@).skip(1) =~= ops_before.skip(1)
                                    + partial_frame(j as int));
                                assert(rows_ops(tv, rsv, sel, n, 0).0 =~= ops_view(ops@).skip(1));
                            }
                            break ;
                        },
                    }
                }
                ops.push(DrawOp::RestoreCursor);
                proof {
                    assert(ops_view(ops@) =~= seq![DrawOpView::ClearBelow] + rows_ops(
                        tv,
                        rsv,
                        sel,
                        n,
                        0,
                    ).0 + seq![DrawOpView::RestoreCursor]);
                }
                (ops, err)
            }
        },
    }
}

} // verus!
