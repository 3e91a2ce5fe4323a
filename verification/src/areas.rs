//! The areas of the screen that the sections are drawn in.

use vstd::prelude::*;

use crate::help::columns_for;
#[allow(unused_imports)]
use crate::help::column_count;
#[allow(unused_imports)]
use crate::layout::{band_height, dashboard_split, lesser, profile_of, total_of};
use crate::layout::{
    dashboard_layout, related_band_height, Constraint, DashboardLayout, Rect, TerminalProfile,
};

verus! {

/// The direction in which an area is split.
#[derive(Debug, Clone, Copy, PartialEq, Eq, Structural)]
pub enum Direction {
    /// Into parts one below the other.
    Down,
    /// Into parts side by side.
    Across,
}

/// The parts of a split of `area`: as many as were asked for, none outside the
/// area, and each as wide (or as high) as it.
pub open spec fn parts_of(area: Rect, direction: Direction, n: nat, r: Seq<Rect>) -> bool {
    &&& r.len() == n
    &&& forall|i: int| 0 <= i < n ==> (#[trigger] r[i]).inside(area)
    &&& direction is Down ==> forall|i: int|
        0 <= i < n ==> (#[trigger] r[i]).x == area.x && r[i].width == area.width
    &&& direction is Across ==> forall|i: int|
        0 <= i < n ==> (#[trigger] r[i]).y == area.y && r[i].height == area.height
}

/// Rows of the area that a split down shares out, or columns that one across does.
pub open spec fn room(area: Rect, direction: Direction) -> int {
    match direction {
        Direction::Down => area.height as int,
        Direction::Across => area.width as int,
    }
}

/// `r` takes `size` rows (or columns) of the area, `at` rows from its start.
pub open spec fn takes(area: Rect, direction: Direction, r: Rect, at: int, size: int) -> bool {
    match direction {
        Direction::Down => r.y == area.y + at && r.height == size,
        Direction::Across => r.x == area.x + at && r.width == size,
    }
}

/// Rows or columns of all parts of a fixed length.
pub open spec fn fixed(parts: Seq<Constraint>) -> int
    decreases parts.len(),
{
    if parts.len() == 0 {
        0
    } else {
        fixed(parts.drop_last()) + match parts.last() {
            Constraint::Length(n) => n as int,
            _ => 0,
        }
    }
}

/// The parts can all have what they ask for, and at most one of them, of weight
/// one, takes what is left.
pub open spec fn fits(parts: Seq<Constraint>, room: int) -> bool {
    &&& parts.len() <= 8
    &&& fixed(parts) <= room
    &&& forall|i: int, j: int|
        0 <= i < j < parts.len() ==> (#[trigger] parts[i]) is Length || (#[trigger] parts[j])
            is Length
    &&& forall|i: int|
        0 <= i < parts.len() ==> match #[trigger] parts[i] {
            Constraint::Length(_) => true,
            Constraint::Min(n) => fixed(parts) + n <= room,
            Constraint::Fill(n) => n == 1,
        }
}

/// The size of a part where all of them fit.
pub open spec fn size_of(parts: Seq<Constraint>, room: int, i: int) -> int {
    match parts[i] {
        Constraint::Length(n) => n as int,
        _ => room - fixed(parts),
    }
}

/// The sizes of the parts before the `i`-th.
pub open spec fn start_of(parts: Seq<Constraint>, room: int, i: int) -> int
    decreases i,
{
    if i <= 0 {
        0
    } else {
        start_of(parts, room, i - 1) + size_of(parts, room, i - 1)
    }
}

/// One to three parts of the same weight.
pub open spec fn even(parts: Seq<Constraint>) -> bool {
    &&& 1 <= parts.len() <= 3
    &&& forall|i: int| 0 <= i < parts.len() ==> #[trigger] parts[i] == Constraint::Fill(1)
}

/// Where the `i`-th of `n` parts of the same weight starts: at its share of the
/// room, rounded to the nearest, halves up.
pub open spec fn even_start(room: int, n: int, i: int) -> int {
    (2 * i * room + n) / (2 * n)
}

/// Where all parts fit, each has its size, and they follow one another.
pub open spec fn placed(
    area: Rect,
    direction: Direction,
    parts: Seq<Constraint>,
    r: Seq<Rect>,
) -> bool {
    let all = room(area, direction);
    fits(parts, all) ==> forall|i: int|
        0 <= i < r.len() ==> takes(
            area,
            direction,
            #[trigger] r[i],
            start_of(parts, all, i),
            size_of(parts, all, i),
        )
}

/// A part of a fixed length is cut where the area is smaller; one behind it that
/// grows from nothing has the rest.
pub open spec fn cut_or_rest(
    area: Rect,
    direction: Direction,
    parts: Seq<Constraint>,
    r: Seq<Rect>,
) -> bool {
    (parts.len() == 2 && parts[0] is Length && parts[1] == Constraint::Min(0)) ==> {
        let all = room(area, direction);
        let first = lesser(parts[0]->Length_0 as int, all);
        &&& takes(area, direction, r[0], 0, first)
        &&& takes(area, direction, r[1], first, all - first)
    }
}

/// A row between two parts of a fixed length that may grow is never given up for
/// them.
pub open spec fn middle_stays(
    area: Rect,
    direction: Direction,
    parts: Seq<Constraint>,
    r: Seq<Rect>,
) -> bool {
    (parts.len() == 3 && parts[0] is Length && parts[1] == Constraint::Min(1) && parts[2] is Length
        && room(area, direction) >= 1) ==> match direction {
        Direction::Down => r[1].height >= 1,
        Direction::Across => r[1].width >= 1,
    }
}

/// Parts of the same weight share the area evenly.
pub open spec fn shared_evenly(
    area: Rect,
    direction: Direction,
    parts: Seq<Constraint>,
    r: Seq<Rect>,
) -> bool {
    let (all, n) = (room(area, direction), parts.len() as int);
    even(parts) ==> forall|i: int|
        0 <= i < r.len() ==> takes(
            area,
            direction,
            #[trigger] r[i],
            even_start(all, n, i),
            even_start(all, n, i + 1) - even_start(all, n, i),
        )
}

/// Splits an area with `ratatui::layout::Layout::split`. Of its parts this claims
/// their number, that they lie in the area, and that a split down keeps the
/// columns and a split across the rows of the area. Where all parts fit, they
/// follow one another from the start of the area: those of a fixed length have
/// it, and the one that grows has what is left. A part of a fixed length before
/// one that grows from nothing is cut where the area is smaller. Between two
/// parts of a fixed length, one that asks for at least one row or column has it
/// in every area that is not empty: a minimum weighs ten times as much as a
/// length. Up to three parts of the same weight share the area evenly.
///
/// Where several fixed lengths do not fit, a solver of weighted constraints
/// decides which of them gives way, and its choice among equally good answers
/// follows the order of hash maps: of that nothing is claimed.
#[verifier::external_body]
fn split(area: Rect, direction: Direction, parts: &Vec<Constraint>) -> (r: Vec<Rect>)
    requires
        area.wf(),
    ensures
        parts_of(area, direction, parts@.len(), r@),
        placed(area, direction, parts@, r@),
        cut_or_rest(area, direction, parts@, r@),
        middle_stays(area, direction, parts@, r@),
        shared_evenly(area, direction, parts@, r@),
{
    let whole = ratatui::layout::Rect::new(area.x, area.y, area.width, area.height);
    let wishes = parts.iter().map(|p| match p {
        Constraint::Length(n) => ratatui::layout::Constraint::Length(*n),
        Constraint::Min(n) => ratatui::layout::Constraint::Min(*n),
        Constraint::Fill(n) => ratatui::layout::Constraint::Fill(*n),
    });
    let way = match direction {
        Direction::Down => ratatui::layout::Direction::Vertical,
        Direction::Across => ratatui::layout::Direction::Horizontal,
    };
    let split = ratatui::layout::Layout::new(way, wishes).split(whole);
    split.iter().map(|r| Rect { x: r.x, y: r.y, width: r.width, height: r.height }).collect()
}

/// The heights of the header, the body and the status line.
pub fn shell_parts(area: Rect) -> (r: Vec<Constraint>)
    ensures
        r@ == seq![
            Constraint::Length(
                if profile_of(area.width as int, area.height as int) is Tiny {
                    2
                } else {
                    3
                },
            ),
            Constraint::Min(1),
            Constraint::Length(1),
        ],
{
    let (header, status) = TerminalProfile::from_rect(area).shell_heights();
    let mut parts: Vec<Constraint> = Vec::new();
    parts.push(Constraint::Length(header));
    parts.push(Constraint::Min(1));
    parts.push(Constraint::Length(status));
    parts
}

/// The height of the header.
pub open spec fn header_height(area: Rect) -> int {
    if profile_of(area.width as int, area.height as int) is Tiny {
        2
    } else {
        3
    }
}

/// The header, the body and the status line of the screen. Where there is room
/// for them, the header and the status line have their full height, and the body
/// has the rest. In a lower area the body keeps a row as long as there is one;
/// which of the two others gives way is left open.
pub fn shell_areas(area: Rect) -> (r: (Rect, Rect, Rect))
    requires
        area.wf(),
    ensures
        parts_of(area, Direction::Down, 3, seq![r.0, r.1, r.2]),
        area.height >= header_height(area) + 2 ==> {
            let (top, all) = (header_height(area), area.height as int);
            &&& takes(area, Direction::Down, r.0, 0, top)
            &&& takes(area, Direction::Down, r.1, top, all - top - 1)
            &&& takes(area, Direction::Down, r.2, all - 1, 1)
        },
        area.height >= 1 ==> r.1.height >= 1,
{
    let parts = shell_parts(area);
    let r = split(area, Direction::Down, &parts);
    proof {
        assert(r@ =~= seq![r@[0], r@[1], r@[2]]);
        reveal_with_fuel(fixed, 4);
        reveal_with_fuel(start_of, 3);
    }
    (r[0], r[1], r[2])
}

/// The five sections of the screen of the song that plays, one below the other.
/// In an area of nine rows or more each has its height, and together they fill
/// it. In a lower one the solver decides how they shrink, and its choice among
/// equally good answers is left open.
pub fn dashboard_areas(area: Rect) -> (r: Vec<Rect>)
    requires
        area.wf(),
    ensures
        parts_of(area, Direction::Down, 5, r@),
        ({
            let l = dashboard_split(
                area.height as int,
                profile_of(area.width as int, area.height as int),
            );
            area.height >= 9 ==> {
                let bar = l.card + l.visual;
                let queue = bar + l.progress;
                &&& takes(area, Direction::Down, r@[0], 0, l.card as int)
                &&& takes(area, Direction::Down, r@[1], l.card as int, l.visual as int)
                &&& takes(area, Direction::Down, r@[2], bar, l.progress as int)
                &&& takes(area, Direction::Down, r@[3], queue, l.recs as int)
                &&& takes(area, Direction::Down, r@[4], queue + l.recs, l.controls as int)
                &&& queue + l.recs + l.controls == area.height
            }
        }),
{
    let layout: DashboardLayout = dashboard_layout(area, TerminalProfile::from_rect(area));
    let heights = layout.constraints();
    let mut parts: Vec<Constraint> = Vec::new();
    parts.push(heights[0]);
    parts.push(heights[1]);
    parts.push(heights[2]);
    parts.push(heights[3]);
    parts.push(heights[4]);
    let r = split(area, Direction::Down, &parts);
    proof {
        reveal_with_fuel(fixed, 6);
        reveal_with_fuel(start_of, 5);
    }
    r
}

/// The heights of the band and the queue of the Related screen.
pub fn related_parts(area: Rect) -> (r: Vec<Constraint>)
    ensures
        r@ == seq![
            Constraint::Length(
                band_height(
                    area.height as int,
                    profile_of(area.width as int, area.height as int),
                ) as u16,
            ),
            Constraint::Min(0),
        ],
{
    let band: u16 = related_band_height(area.height, TerminalProfile::from_rect(area));
    let mut parts: Vec<Constraint> = Vec::new();
    parts.push(Constraint::Length(band));
    parts.push(Constraint::Min(0));
    parts
}

/// The band and the queue of the Related screen: the band has its height, cut
/// where the area is lower, and the queue has the rest.
pub fn related_areas(area: Rect) -> (r: (Rect, Rect))
    requires
        area.wf(),
    ensures
        parts_of(area, Direction::Down, 2, seq![r.0, r.1]),
        ({
            let all = area.height as int;
            let band = lesser(
                band_height(all, profile_of(area.width as int, area.height as int)),
                all,
            );
            &&& takes(area, Direction::Down, r.0, 0, band)
            &&& takes(area, Direction::Down, r.1, band, all - band)
        }),
{
    let parts = related_parts(area);
    let r = split(area, Direction::Down, &parts);
    proof {
        assert(r@ =~= seq![r@[0], r@[1]]);
    }
    (r[0], r[1])
}

/// The field for the query and the results of the Search screen: the field has
/// three rows, as far as the area has them, and the results have the rest.
pub fn search_areas(area: Rect) -> (r: (Rect, Rect))
    requires
        area.wf(),
    ensures
        parts_of(area, Direction::Down, 2, seq![r.0, r.1]),
        ({
            let all = area.height as int;
            let field = lesser(3, all);
            &&& takes(area, Direction::Down, r.0, 0, field)
            &&& takes(area, Direction::Down, r.1, field, all - field)
        }),
{
    let mut parts: Vec<Constraint> = Vec::new();
    parts.push(Constraint::Length(3));
    parts.push(Constraint::Min(0));
    let r = split(area, Direction::Down, &parts);
    proof {
        assert(r@ =~= seq![r@[0], r@[1]]);
    }
    (r[0], r[1])
}

/// The columns of the help: they share the area evenly.
pub fn help_areas(area: Rect, profile: TerminalProfile) -> (r: Vec<Rect>)
    requires
        area.wf(),
    ensures
        parts_of(area, Direction::Across, column_count(profile), r@),
        forall|i: int|
            0 <= i < r@.len() ==> {
                let (all, n) = (area.width as int, column_count(profile) as int);
                takes(
                    area,
                    Direction::Across,
                    #[trigger] r@[i],
                    even_start(all, n, i),
                    even_start(all, n, i + 1) - even_start(all, n, i),
                )
            },
{
    let n: usize = columns_for(profile);
    let mut parts: Vec<Constraint> = Vec::new();
    if n == 1 {
        let mut whole: Vec<Rect> = Vec::new();
        whole.push(area);
        proof {
            lemma_even_starts(area.width as int);
        }
        return whole;
    }
    while parts.len() < n
        invariant
            parts@.len() <= n,
            forall|i: int| 0 <= i < parts@.len() ==> #[trigger] parts@[i] == Constraint::Fill(1),
        decreases n - parts@.len(),
    {
        parts.push(Constraint::Fill(1));
    }
    split(area, Direction::Across, &parts)
}

proof fn lemma_even_starts(room: int)
    requires
        room >= 0,
    ensures
        even_start(room, 1, 0) == 0 && even_start(room, 1, 1) == room,
        even_start(room, 2, 0) == 0 && even_start(room, 2, 1) == (room + 1) / 2,
        even_start(room, 2, 2) == room,
        even_start(room, 3, 0) == 0 && even_start(room, 3, 1) == (2 * room + 3) / 6,
        even_start(room, 3, 2) == (4 * room + 3) / 6 && even_start(room, 3, 3) == room,
{
    assert((2 * 0int * room + 1) / (2 * 1int) == 0) by (nonlinear_arith);
    assert((2 * 1int * room + 1) / (2 * 1int) == room) by (nonlinear_arith);
    assert((2 * 0int * room + 2) / (2 * 2int) == 0) by (nonlinear_arith);
    assert((2 * 1int * room + 2) / (2 * 2int) == (room + 1) / 2) by (nonlinear_arith);
    assert((2 * 2int * room + 2) / (2 * 2int) == room) by (nonlinear_arith);
    assert((2 * 0int * room + 3) / (2 * 3int) == 0) by (nonlinear_arith);
    assert((2 * 1int * room + 3) / (2 * 3int) == (2 * room + 3) / 6) by (nonlinear_arith);
    assert((2 * 2int * room + 3) / (2 * 3int) == (4 * room + 3) / 6) by (nonlinear_arith);
    assert((2 * 3int * room + 3) / (2 * 3int) == room) by (nonlinear_arith);
}

/// The columns of the help lie side by side, cover the area, and differ in width
/// by at most one.
pub proof fn law_columns_share_the_area(width: int, profile: TerminalProfile, i: int, j: int)
    requires
        width >= 0,
        0 <= i < column_count(profile),
        0 <= j < column_count(profile),
    ensures
        ({
            let n = column_count(profile) as int;
            let wide = |k: int| even_start(width, n, k + 1) - even_start(width, n, k);
            &&& even_start(width, n, 0) == 0
            &&& even_start(width, n, n) == width
            &&& wide(i) >= 0
            &&& wide(i) <= wide(j) + 1
        }),
{
    lemma_even_starts(width);
}

/// Parts that fit, one of which grows, cover the whole area.
pub proof fn law_parts_cover_the_area(parts: Seq<Constraint>, room: int, k: int)
    requires
        fits(parts, room),
        0 <= k < parts.len(),
        !(parts[k] is Length),
    ensures
        start_of(parts, room, parts.len() as int) == room,
{
    lemma_starts(parts, room, parts.len() as int, k);
    assert(parts.take(parts.len() as int) =~= parts);
}

proof fn lemma_starts(parts: Seq<Constraint>, room: int, n: int, k: int)
    requires
        fits(parts, room),
        0 <= k < parts.len(),
        !(parts[k] is Length),
        0 <= n <= parts.len(),
    ensures
        start_of(parts, room, n) == fixed(parts.take(n)) + if n > k {
            room - fixed(parts)
        } else {
            0
        },
    decreases n,
{
    if n > 0 {
        lemma_starts(parts, room, n - 1, k);
        assert(parts.take(n).drop_last() =~= parts.take(n - 1));
        assert(parts.take(n).last() == parts[n - 1]);
        if n - 1 < k {
            assert(parts[n - 1] is Length);
        } else if n - 1 > k {
            assert(parts[n - 1] is Length);
        }
    }
}

/// The areas lie one below the other without a gap, from the top of the whole to
/// its bottom, over its full width.
pub open spec fn stacked(area: Rect, r: Seq<Rect>) -> bool {
    &&& r.len() > 0
    &&& r[0].y == area.y
    &&& r.last().y + r.last().height == area.y + area.height
    &&& forall|i: int| 0 <= i < r.len() ==> (#[trigger] r[i]).x == area.x && r[i].width == area.width
    &&& forall|i: int|
        0 <= i < r.len() - 1 ==> (#[trigger] r[i]).y + r[i].height == r[i + 1].y
}

/// Header, body and status line fill the screen from top to bottom; the status
/// line has one row, the header two in a tiny terminal and three in any other.
pub proof fn law_shell_fills_the_screen(area: Rect, r: (Rect, Rect, Rect))
    requires
        area.wf(),
        area.height >= 5,
        call_ensures(shell_areas, (area,), r),
    ensures
        stacked(area, seq![r.0, r.1, r.2]),
        r.2.height == 1,
        area.width < 60 || area.height < 16 ==> r.0.height == 2,
        area.width >= 60 && area.height >= 16 ==> r.0.height == 3,
{
    let v = seq![r.0, r.1, r.2];
    assert(v[0] == r.0 && v[1] == r.1 && v[2] == r.2);
}

/// The card, the visualizer, the progress bar, the queue and the controls fill
/// the dashboard from top to bottom in this order, and none of them vanishes.
pub proof fn law_dashboard_fills_its_area(area: Rect, r: Vec<Rect>)
    requires
        area.wf(),
        area.height >= 9,
        call_ensures(dashboard_areas, (area,), r),
    ensures
        stacked(area, r@),
        r@.len() == 5,
        r@[0].height >= 3,
        r@[1].height >= 1,
        r@[2].height >= 1,
        r@[3].height >= 3,
        r@[4].height >= 1,
{
    crate::layout::law_sections_never_vanish(
        area.height as nat,
        profile_of(area.width as int, area.height as int),
    );
}

/// The band and the list below it fill their area, and so do the field for a
/// query, which is three rows high, and the results.
pub proof fn law_two_parts_fill_their_area(area: Rect, related: (Rect, Rect), search: (Rect, Rect))
    requires
        area.wf(),
        call_ensures(related_areas, (area,), related),
        call_ensures(search_areas, (area,), search),
    ensures
        stacked(area, seq![related.0, related.1]),
        area.height >= 6 ==> related.0.height >= 3 && related.1.height >= 3,
        stacked(area, seq![search.0, search.1]),
        area.height >= 3 ==> search.0.height == 3,
{
    let (v, w) = (seq![related.0, related.1], seq![search.0, search.1]);
    assert(v[0] == related.0 && v[1] == related.1);
    assert(w[0] == search.0 && w[1] == search.1);
    crate::layout::law_band_and_list_keep_room(
        area.height as nat,
        profile_of(area.width as int, area.height as int),
    );
}

/// The columns of the help lie side by side without a gap, from the left edge of
/// their area to its right edge, over its full height.
pub proof fn law_help_columns_fill_their_area(area: Rect, profile: TerminalProfile, r: Vec<Rect>)
    requires
        area.wf(),
        call_ensures(help_areas, (area, profile), r),
    ensures
        r@.len() > 0,
        r@[0].x == area.x,
        r@.last().x + r@.last().width == area.x + area.width,
        forall|i: int|
            0 <= i < r@.len() ==> (#[trigger] r@[i]).y == area.y && r@[i].height == area.height,
        forall|i: int|
            0 <= i < r@.len() - 1 ==> (#[trigger] r@[i]).x + r@[i].width == r@[i + 1].x,
{
    law_columns_share_the_area(area.width as int, profile, 0, 0);
    assert forall|i: int| 0 <= i < r@.len() - 1 implies (#[trigger] r@[i]).x + r@[i].width
        == r@[i + 1].x by {
        let next = r@[i + 1];
    }
}

} // verus!
