//! What the traces of the two channels look like once they are painted.

use vstd::prelude::*;

use crate::layout::{greater, lesser};
use crate::scope::{
    accent_rows, accent_track, accents_painted, between_rows, emits, link_points, linked, links,
    marks, painted, row_taken, trace_marks, trace_points, trace_row, tracks_at, with_accents,
    ChannelRows, ColumnRows, Point, PointKind, Tracks,
};

verus! {

/// The row of a channel's trace in a column.
pub open spec fn row_of(c: ColumnRows, right: bool) -> u16 {
    if right {
        c.right.trace
    } else {
        c.left.trace
    }
}

/// The kind of the points that tie the trace of a channel together.
pub open spec fn link_kind(right: bool) -> PointKind {
    if right {
        PointKind::RightLink
    } else {
        PointKind::LeftLink
    }
}

/// The kind of the points of a channel's trace alone.
pub open spec fn trace_kind(right: bool) -> PointKind {
    if right {
        PointKind::Right
    } else {
        PointKind::Left
    }
}

/// Column `c` of the picture holds a point of the channel's trace.
pub open spec fn shows_trace(
    points: Seq<Point>,
    columns: Seq<ColumnRows>,
    c: int,
    right: bool,
) -> bool {
    let row = row_of(columns[c], right);
    ||| points.contains(Point { col: c as usize, row, kind: trace_kind(right) })
    ||| points.contains(Point { col: c as usize, row, kind: PointKind::Both })
}

/// Column `a` is the last one before column `b` that holds a point of the
/// channel's trace.
pub open spec fn last_before(
    points: Seq<Point>,
    columns: Seq<ColumnRows>,
    a: int,
    b: int,
    right: bool,
) -> bool {
    &&& 0 <= a < b
    &&& shows_trace(points, columns, a, right)
    &&& forall|c: int| a < c < b ==> !#[trigger] shows_trace(points, columns, c, right)
}

/// Row `y` lies strictly between two rows.
pub open spec fn strictly_between(y: int, r: u16, s: u16) -> bool {
    r < y < s || s < y < r
}

/// Whenever a column holds a point of a channel's trace, and the last one before
/// it that does is at most `min_dist` columns away (or one, if that is zero), all
/// rows strictly between the two points are painted in the later column as links
/// of that channel.
pub proof fn law_near_points_are_linked(
    columns: Vec<ColumnRows>,
    min_dist: usize,
    points: Vec<Point>,
    right: bool,
    a: int,
    b: int,
    y: int,
)
    requires
        call_ensures(trace_points, (&columns, min_dist), points),
        0 <= a < b < columns@.len(),
        last_before(points@, columns@, a, b, right),
        shows_trace(points@, columns@, b, right),
        b - a <= min_dist || b - a <= 1,
        strictly_between(y, row_of(columns@[a], right), row_of(columns@[b], right)),
    ensures
        points@.contains(Point { col: b as usize, row: y as u16, kind: link_kind(right) }),
{
    let cols = columns@;
    let dist = min_dist as int;
    assert(columns@.len() == columns.len());
    lemma_shows_exactly(cols, dist, b, right);
    lemma_last(cols, b, dist, right);
    let last = channel(tracks_at(cols, b as nat, dist), right);
    lemma_shows_exactly(cols, dist, a, right);
    if last is None {
        assert(!paints(cols, a, dist, right));
    }
    let at = (last->0).0 as int;
    if at < a {
        assert(!paints(cols, a, dist, right));
    } else if a < at {
        lemma_shows_exactly(cols, dist, at, right);
        assert(shows_trace(points@, cols, at, right));
    }
    assert(at == a);
    let p = Point { col: b as usize, row: y as u16, kind: link_kind(right) };
    lemma_links(tracks_at(cols, b as nat, dist), b as usize, cols[b], dist, p);
    lemma_painted(cols, cols.len(), dist, p);
}

/// Nothing else is a link: a link of a channel lies in a column that holds a
/// point of its trace, strictly between that point and the one of the last
/// column that does, and those columns are near.
pub proof fn law_links_tie_near_points(
    columns: Vec<ColumnRows>,
    min_dist: usize,
    points: Vec<Point>,
    right: bool,
    b: int,
    y: u16,
) -> (a: int)
    requires
        call_ensures(trace_points, (&columns, min_dist), points),
        0 <= b <= usize::MAX,
        points@.contains(Point { col: b as usize, row: y, kind: link_kind(right) }),
    ensures
        b < columns@.len(),
        last_before(points@, columns@, a, b, right),
        shows_trace(points@, columns@, b, right),
        b - a <= min_dist || b - a <= 1,
        strictly_between(y as int, row_of(columns@[a], right), row_of(columns@[b], right)),
{
    let cols = columns@;
    let dist = min_dist as int;
    assert(columns@.len() == columns.len());
    let p = Point { col: b as usize, row: y, kind: link_kind(right) };
    lemma_painted(cols, cols.len(), dist, p);
    let t = tracks_at(cols, b as nat, dist);
    lemma_marks(t, b as usize, cols[b], dist, p);
    lemma_links(t, b as usize, cols[b], dist, p);
    lemma_last(cols, b, dist, right);
    let a = (channel(t, right)->0).0 as int;
    lemma_shows_exactly(cols, dist, a, right);
    lemma_shows_exactly(cols, dist, b, right);
    assert forall|c: int| a < c < b implies !#[trigger] shows_trace(points@, cols, c, right) by {
        lemma_shows_exactly(cols, dist, c, right);
    }
    a
}

/// The first column holds the traces of both channels. A later one holds the
/// trace of a channel exactly if its row is not that of the last column that
/// does, or if that one is `min_dist` or more columns away.
pub proof fn law_traces_are_spaced(
    columns: Vec<ColumnRows>,
    min_dist: usize,
    points: Vec<Point>,
    right: bool,
    a: int,
    b: int,
)
    requires
        call_ensures(trace_points, (&columns, min_dist), points),
        0 <= a < b < columns@.len(),
        last_before(points@, columns@, a, b, right),
    ensures
        shows_trace(points@, columns@, 0, right),
        shows_trace(points@, columns@, b, right) <==> row_of(columns@[a], right) != row_of(
            columns@[b],
            right,
        ) || b - a >= min_dist,
{
    let cols = columns@;
    let dist = min_dist as int;
    assert(columns@.len() == columns.len());
    lemma_shows_exactly(cols, dist, 0, right);
    lemma_shows_exactly(cols, dist, a, right);
    lemma_shows_exactly(cols, dist, b, right);
    lemma_last(cols, b, dist, right);
    let last = channel(tracks_at(cols, b as nat, dist), right);
    let at = (last->0).0 as int;
    if last is None {
        assert(!paints(cols, a, dist, right));
    }
    if at < a {
        assert(!paints(cols, a, dist, right));
    } else if a < at {
        lemma_shows_exactly(cols, dist, at, right);
        assert(shows_trace(points@, cols, at, right));
    }
}

/// Two traces in one cell are one point of both; else each has its own.
pub proof fn law_shared_cells_belong_to_both(
    columns: Vec<ColumnRows>,
    min_dist: usize,
    points: Vec<Point>,
    c: int,
)
    requires
        call_ensures(trace_points, (&columns, min_dist), points),
        0 <= c < columns@.len(),
        shows_trace(points@, columns@, c, false),
        shows_trace(points@, columns@, c, true),
    ensures
        ({
            let (l, r) = (columns@[c].left.trace, columns@[c].right.trace);
            let col = c as usize;
            &&& l == r <==> points@.contains(Point { col, row: l, kind: PointKind::Both })
            &&& l != r <==> points@.contains(Point { col, row: l, kind: PointKind::Left })
            &&& l != r <==> points@.contains(Point { col, row: r, kind: PointKind::Right })
        }),
{
    let cols = columns@;
    let dist = min_dist as int;
    assert(columns@.len() == columns.len());
    lemma_shows_exactly(cols, dist, c, false);
    lemma_shows_exactly(cols, dist, c, true);
    let (l, r) = (cols[c].left.trace, cols[c].right.trace);
    let col = c as usize;
    let t = tracks_at(cols, c as nat, dist);
    let both = Point { col, row: l, kind: PointKind::Both };
    let left = Point { col, row: l, kind: PointKind::Left };
    let alone = Point { col, row: r, kind: PointKind::Right };
    lemma_trace_point(cols, dist, both);
    lemma_trace_point(cols, dist, left);
    lemma_trace_point(cols, dist, alone);
}

/// The columns with the two channels in each other's place.
pub open spec fn exchanged(columns: Seq<ColumnRows>) -> Seq<ColumnRows> {
    columns.map_values(|c: ColumnRows| ColumnRows { left: c.right, right: c.left })
}

/// A cell of the picture holds a point.
pub open spec fn cell_painted(points: Seq<Point>, col: usize, row: u16) -> bool {
    exists|i: int|
        0 <= i < points.len() && (#[trigger] points[i]).col == col && points[i].row == row
}

/// The two channels are treated alike: with the channels in each other's place
/// the links and the traces of one become those of the other, cells of both stay
/// so, and the same cells are painted.
pub proof fn law_channels_are_treated_alike(
    columns: Vec<ColumnRows>,
    turned: Vec<ColumnRows>,
    min_dist: usize,
    points: Vec<Point>,
    mirrored: Vec<Point>,
    col: usize,
    row: u16,
)
    requires
        call_ensures(trace_points, (&columns, min_dist), points),
        call_ensures(trace_points, (&turned, min_dist), mirrored),
        turned@ == exchanged(columns@),
    ensures
        points@.contains(Point { col, row, kind: PointKind::LeftLink }) <==> mirrored@.contains(
            Point { col, row, kind: PointKind::RightLink },
        ),
        points@.contains(Point { col, row, kind: PointKind::RightLink }) <==> mirrored@.contains(
            Point { col, row, kind: PointKind::LeftLink },
        ),
        points@.contains(Point { col, row, kind: PointKind::Left }) <==> mirrored@.contains(
            Point { col, row, kind: PointKind::Right },
        ),
        points@.contains(Point { col, row, kind: PointKind::Right }) <==> mirrored@.contains(
            Point { col, row, kind: PointKind::Left },
        ),
        points@.contains(Point { col, row, kind: PointKind::Both }) <==> mirrored@.contains(
            Point { col, row, kind: PointKind::Both },
        ),
        cell_painted(points@, col, row) <==> cell_painted(mirrored@, col, row),
{
    let cols = columns@;
    let dist = min_dist as int;
    assert(columns@.len() == columns.len());
    lemma_mirrored_point(cols, dist, col, row, PointKind::LeftLink);
    lemma_mirrored_point(cols, dist, col, row, PointKind::RightLink);
    lemma_mirrored_point(cols, dist, col, row, PointKind::Left);
    lemma_mirrored_point(cols, dist, col, row, PointKind::Right);
    lemma_mirrored_point(cols, dist, col, row, PointKind::Both);
    lemma_cell(cols, dist, col, row);
    lemma_cell(exchanged(cols), dist, col, row);
    if col < cols.len() {
        lemma_mirrored_tracks(cols, col as nat, dist);
        let t = tracks_at(cols, col as nat, dist);
        let u = tracks_at(exchanged(cols), col as nat, dist);
        lemma_links_row(t, col, cols[col as int], dist, row);
        lemma_links_row(u, col, exchanged(cols)[col as int], dist, row);
        lemma_marks_row(t, col, cols[col as int], dist, row);
        lemma_marks_row(u, col, exchanged(cols)[col as int], dist, row);
        let (c, d) = (cols[col as int], exchanged(cols)[col as int]);
        assert(tied(t, col, c, dist, row, false) == tied(u, col, d, dist, row, true));
        assert(tied(t, col, c, dist, row, true) == tied(u, col, d, dist, row, false));
    }
}

/// Where a channel has two extremes beside its trace, the greater one is always
/// painted in its column, and an accent of a channel lies only in the row of an
/// extreme that is not the row of its trace.
pub proof fn law_extremes_are_painted(
    columns: Vec<ColumnRows>,
    min_dist: usize,
    points: Vec<Point>,
    c: int,
    right: bool,
    row: u16,
)
    requires
        call_ensures(trace_points, (&columns, min_dist), points),
        0 <= c < columns@.len(),
    ensures
        ({
            let rows = if right {
                columns@[c].right
            } else {
                columns@[c].left
            };
            let kind = if right {
                PointKind::RightAccent
            } else {
                PointKind::LeftAccent
            };
            &&& rows.low != rows.trace && rows.high != rows.trace && rows.low != rows.high
                ==> cell_painted(points@, c as usize, rows.high)
            &&& points@.contains(Point { col: c as usize, row, kind }) ==> row != rows.trace && (row
                == rows.low || row == rows.high)
        }),
{
    let cols = columns@;
    let dist = min_dist as int;
    assert(columns@.len() == columns.len());
    let t = tracks_at(cols, c as nat, dist);
    let rows = if right {
        cols[c].right
    } else {
        cols[c].left
    };
    let kind = if right {
        PointKind::RightAccent
    } else {
        PointKind::LeftAccent
    };
    let last = if right {
        t.right_accents
    } else {
        t.left_accents
    };
    let p = Point { col: c as usize, row, kind };
    lemma_painted(cols, cols.len(), dist, p);
    lemma_links(t, c as usize, cols[c], dist, p);
    lemma_marks(t, c as usize, cols[c], dist, p);
    lemma_accent_rows(rows, row);
    lemma_accents_subset(accent_rows(rows), last, c as usize, dist, row);
    if rows.low != rows.trace && rows.high != rows.trace && rows.low != rows.high {
        let all = accent_rows(rows);
        lemma_accent_rows(rows, rows.high);
        assert(all =~= seq![rows.low, rows.high]);
        assert(all.drop_last() =~= seq![rows.low]);
        assert(seq![rows.low].drop_last() =~= Seq::<u16>::empty());
        assert(accent_track(Seq::<u16>::empty(), last, c as usize, dist) == last);
        assert(accent_track(seq![rows.low], last, c as usize, dist) is Some);
        assert((accent_track(seq![rows.low], last, c as usize, dist)->0).1 == rows.low);
        let painted_rows = accents_painted(all, last, c as usize, dist);
        assert(painted_rows.last() == rows.high);
        assert(painted_rows[painted_rows.len() - 1] == rows.high);
        assert(painted_rows.contains(rows.high));
        lemma_marks_row(t, c as usize, cols[c], dist, rows.high);
        lemma_cell(cols, dist, c as usize, rows.high);
    }
}

/// The last point of a channel's track.
spec fn channel(t: Tracks, right: bool) -> Option<(usize, u16)> {
    if right {
        t.right
    } else {
        t.left
    }
}

/// The channel paints its trace in column `c`.
spec fn paints(columns: Seq<ColumnRows>, c: int, dist: int, right: bool) -> bool {
    emits(channel(tracks_at(columns, c as nat, dist), right), c, row_of(columns[c], right), dist)
}

proof fn lemma_joined_contains(a: Seq<Point>, b: Seq<Point>, p: Point)
    ensures
        (a + b).contains(p) <==> a.contains(p) || b.contains(p),
{
    if a.contains(p) {
        let i = choose|i: int| 0 <= i < a.len() && a[i] == p;
        assert((a + b)[i] == p);
    }
    if b.contains(p) {
        let i = choose|i: int| 0 <= i < b.len() && b[i] == p;
        assert((a + b)[a.len() + i] == p);
    }
}

proof fn lemma_accents_contain(
    points: Seq<Point>,
    col: usize,
    rows: Seq<u16>,
    kind: PointKind,
    p: Point,
)
    ensures
        points.contains(p) ==> with_accents(points, col, rows, kind).contains(p),
        with_accents(points, col, rows, kind).contains(p) ==> points.contains(p) || (p.kind == kind
            && p.col == col && rows.contains(p.row)),
    decreases rows.len(),
{
    if rows.len() > 0 {
        lemma_accents_contain(points, col, rows.drop_last(), kind, p);
        let before = with_accents(points, col, rows.drop_last(), kind);
        if rows.drop_last().contains(p.row) {
            let i = choose|i: int| 0 <= i < rows.drop_last().len() && rows.drop_last()[i] == p.row;
            assert(rows[i] == p.row);
        }
        assert(rows[rows.len() - 1] == rows.last());
        if !row_taken(before, rows.last()) {
            let q = Point { col, row: rows.last(), kind };
            assert(before.push(q) =~= before + seq![q]);
            lemma_joined_contains(before, seq![q], p);
            if seq![q].contains(p) {
                assert(p == q);
            }
        }
    }
}

proof fn lemma_accents_row(points: Seq<Point>, col: usize, rows: Seq<u16>, kind: PointKind, row: u16)
    ensures
        row_taken(with_accents(points, col, rows, kind), row) <==> row_taken(points, row)
            || rows.contains(row),
    decreases rows.len(),
{
    if rows.len() > 0 {
        let less = rows.drop_last();
        lemma_accents_row(points, col, less, kind, row);
        let before = with_accents(points, col, less, kind);
        assert(rows.contains(row) <==> less.contains(row) || rows.last() == row) by {
            if less.contains(row) {
                let i = choose|i: int| 0 <= i < less.len() && less[i] == row;
                assert(rows[i] == row);
            }
            assert(rows[rows.len() - 1] == rows.last());
            if rows.contains(row) {
                let i = choose|i: int| 0 <= i < rows.len() && rows[i] == row;
                if i < less.len() {
                    assert(less[i] == row);
                }
            }
        }
        if !row_taken(before, rows.last()) {
            let q = Point { col, row: rows.last(), kind };
            let after = before.push(q);
            if row_taken(before, row) {
                let i = choose|i: int| 0 <= i < before.len() && (#[trigger] before[i]).row == row;
                assert(after[i].row == row);
            }
            assert(after[before.len() as int].row == rows.last());
            if row_taken(after, row) {
                let i = choose|i: int| 0 <= i < after.len() && (#[trigger] after[i]).row == row;
                if i < before.len() {
                    assert(before[i].row == row);
                }
            }
        }
    }
}

proof fn lemma_accents_subset(
    rows: Seq<u16>,
    last: Option<(usize, u16)>,
    col: usize,
    dist: int,
    row: u16,
)
    ensures
        accents_painted(rows, last, col, dist).contains(row) ==> rows.contains(row),
    decreases rows.len(),
{
    let out = accents_painted(rows, last, col, dist);
    if rows.len() > 0 && out.contains(row) {
        let less = rows.drop_last();
        let before = accents_painted(less, last, col, dist);
        lemma_accents_subset(less, last, col, dist, row);
        let i = choose|i: int| 0 <= i < out.len() && out[i] == row;
        if i < before.len() {
            assert(before[i] == row);
            let j = choose|j: int| 0 <= j < less.len() && less[j] == row;
            assert(rows[j] == row);
        } else {
            assert(rows[rows.len() - 1] == row);
        }
    }
}

proof fn lemma_accent_rows(c: ChannelRows, row: u16)
    ensures
        accent_rows(c).contains(row) <==> row != c.trace && (row == c.low || row == c.high),
{
    let all = accent_rows(c);
    if c.low != c.trace {
        assert(seq![c.low][0] == c.low);
        assert(seq![c.low].contains(c.high) <==> c.low == c.high);
        assert(all[0] == c.low);
    } else {
        assert(!Seq::<u16>::empty().contains(c.high));
    }
    if c.high != c.trace && !(c.low != c.trace && c.low == c.high) {
        assert(all[all.len() - 1] == c.high);
    }
    if all.contains(row) {
        let i = choose|i: int| 0 <= i < all.len() && all[i] == row;
        assert(all[i] == c.low || all[i] == c.high);
    }
}

/// What the links of a column are.
proof fn lemma_links(t: Tracks, col: usize, c: ColumnRows, dist: int, p: Point)
    ensures
        links(t, col, c, dist).contains(p) <==> p.col == col && (exists|right: bool|
            {
                let prev = channel(t, right);
                &&& p.kind == #[trigger] link_kind(right)
                &&& emits(prev, col as int, row_of(c, right), dist)
                &&& linked(prev, col as int, row_of(c, right), dist)
                &&& strictly_between(p.row as int, (prev->0).1, row_of(c, right))
            }),
{
    let a = if emits(t.left, col as int, c.left.trace, dist) {
        link_points(t.left, col, c.left.trace, dist, PointKind::LeftLink)
    } else {
        Seq::empty()
    };
    let b = if emits(t.right, col as int, c.right.trace, dist) {
        link_points(t.right, col, c.right.trace, dist, PointKind::RightLink)
    } else {
        Seq::empty()
    };
    assert(links(t, col, c, dist) == a + b);
    lemma_joined_contains(a, b, p);
    lemma_link_points(t.left, col, c.left.trace, dist, PointKind::LeftLink, p);
    lemma_link_points(t.right, col, c.right.trace, dist, PointKind::RightLink, p);
    assert(link_kind(false) == PointKind::LeftLink);
    assert(link_kind(true) == PointKind::RightLink);
    assert(!Seq::<Point>::empty().contains(p));
}

proof fn lemma_link_points(
    prev: Option<(usize, u16)>,
    col: usize,
    row: u16,
    dist: int,
    kind: PointKind,
    p: Point,
)
    ensures
        link_points(prev, col, row, dist, kind).contains(p) <==> p.col == col && p.kind == kind
            && linked(prev, col as int, row, dist) && strictly_between(
            p.row as int,
            (prev->0).1,
            row,
        ),
{
    let all = link_points(prev, col, row, dist, kind);
    if linked(prev, col as int, row, dist) {
        let r = (prev->0).1;
        let lo = lesser(r as int, row as int);
        let hi = greater(r as int, row as int);
        assert(all == between_rows(col, lo, hi, kind));
        if p.col == col && p.kind == kind && lo < p.row < hi {
            assert(all[p.row - lo - 1] == p);
        }
        if all.contains(p) {
            let i = choose|i: int| 0 <= i < all.len() && all[i] == p;
            assert(lo < p.row < hi);
        }
    } else {
        assert(!Seq::<Point>::empty().contains(p));
    }
}

/// A link of the channel lies in the row.
spec fn tied(t: Tracks, col: usize, c: ColumnRows, dist: int, row: u16, right: bool) -> bool {
    let prev = channel(t, right);
    &&& emits(prev, col as int, row_of(c, right), dist)
    &&& linked(prev, col as int, row_of(c, right), dist)
    &&& strictly_between(row as int, (prev->0).1, row_of(c, right))
}

proof fn lemma_links_row(t: Tracks, col: usize, c: ColumnRows, dist: int, row: u16)
    ensures
        row_taken(links(t, col, c, dist), row) <==> tied(t, col, c, dist, row, false) || tied(
            t,
            col,
            c,
            dist,
            row,
            true,
        ),
{
    let all = links(t, col, c, dist);
    if row_taken(all, row) {
        let i = choose|i: int| 0 <= i < all.len() && (#[trigger] all[i]).row == row;
        assert(all.contains(all[i]));
        lemma_links(t, col, c, dist, all[i]);
    }
    let left = Point { col, row, kind: link_kind(false) };
    let right = Point { col, row, kind: link_kind(true) };
    lemma_links(t, col, c, dist, left);
    lemma_links(t, col, c, dist, right);
    if tied(t, col, c, dist, row, false) {
        let i = choose|i: int| 0 <= i < all.len() && all[i] == left;
        assert(all[i].row == row);
    }
    if tied(t, col, c, dist, row, true) {
        let i = choose|i: int| 0 <= i < all.len() && all[i] == right;
        assert(all[i].row == row);
    }
}

/// What the marks of a column are: the points of its traces, and accents.
proof fn lemma_marks(t: Tracks, col: usize, c: ColumnRows, dist: int, p: Point)
    ensures
        ({
            let traces = trace_marks(
                col,
                trace_row(t.left, col, c.left.trace, dist),
                trace_row(t.right, col, c.right.trace, dist),
            );
            let left = accents_painted(accent_rows(c.left), t.left_accents, col, dist);
            let right = accents_painted(accent_rows(c.right), t.right_accents, col, dist);
            &&& marks(t, col, c, dist).contains(p) ==> p.col == col && {
                ||| traces.contains(p)
                ||| p.kind is LeftAccent && left.contains(p.row)
                ||| p.kind is RightAccent && right.contains(p.row)
            }
            &&& traces.contains(p) ==> marks(t, col, c, dist).contains(p)
        }),
{
    let traces = trace_marks(
        col,
        trace_row(t.left, col, c.left.trace, dist),
        trace_row(t.right, col, c.right.trace, dist),
    );
    let left = accents_painted(accent_rows(c.left), t.left_accents, col, dist);
    let right = accents_painted(accent_rows(c.right), t.right_accents, col, dist);
    let mid = with_accents(traces, col, left, PointKind::LeftAccent);
    lemma_accents_contain(traces, col, left, PointKind::LeftAccent, p);
    lemma_accents_contain(mid, col, right, PointKind::RightAccent, p);
    if traces.contains(p) {
        let i = choose|i: int| 0 <= i < traces.len() && traces[i] == p;
        assert(traces[i].col == col);
    }
}

proof fn lemma_marks_row(t: Tracks, col: usize, c: ColumnRows, dist: int, row: u16)
    ensures
        row_taken(marks(t, col, c, dist), row) <==> {
            ||| trace_row(t.left, col, c.left.trace, dist) == Some(row)
            ||| trace_row(t.right, col, c.right.trace, dist) == Some(row)
            ||| accents_painted(accent_rows(c.left), t.left_accents, col, dist).contains(row)
            ||| accents_painted(accent_rows(c.right), t.right_accents, col, dist).contains(row)
        },
{
    let l = trace_row(t.left, col, c.left.trace, dist);
    let r = trace_row(t.right, col, c.right.trace, dist);
    let traces = trace_marks(col, l, r);
    let left = accents_painted(accent_rows(c.left), t.left_accents, col, dist);
    let right = accents_painted(accent_rows(c.right), t.right_accents, col, dist);
    let mid = with_accents(traces, col, left, PointKind::LeftAccent);
    lemma_accents_row(traces, col, left, PointKind::LeftAccent, row);
    lemma_accents_row(mid, col, right, PointKind::RightAccent, row);
    assert(row_taken(traces, row) <==> l == Some(row) || r == Some(row)) by {
        if l == Some(row) {
            assert(traces[0].row == row);
        }
        if r == Some(row) {
            assert(traces[traces.len() - 1].row == row);
        }
    }
}

/// What the picture holds, by columns.
proof fn lemma_painted(columns: Seq<ColumnRows>, n: nat, dist: int, p: Point)
    requires
        n <= columns.len() <= usize::MAX,
    ensures
        painted(columns, n, dist).contains(p) <==> p.col < n && {
            let t = tracks_at(columns, p.col as nat, dist);
            ||| links(t, p.col, columns[p.col as int], dist).contains(p)
            ||| marks(t, p.col, columns[p.col as int], dist).contains(p)
        },
    decreases n,
{
    if n == 0 {
        assert(!Seq::<Point>::empty().contains(p));
    } else {
        let m = (n - 1) as nat;
        lemma_painted(columns, m, dist, p);
        let t = tracks_at(columns, m, dist);
        let a = painted(columns, m, dist);
        let b = links(t, m as usize, columns[m as int], dist);
        let c = marks(t, m as usize, columns[m as int], dist);
        lemma_joined_contains(a, b, p);
        lemma_joined_contains(a + b, c, p);
        lemma_links(t, m as usize, columns[m as int], dist, p);
        lemma_marks(t, m as usize, columns[m as int], dist, p);
    }
}

/// Which points of traces the picture holds.
proof fn lemma_trace_point(columns: Seq<ColumnRows>, dist: int, p: Point)
    requires
        columns.len() <= usize::MAX,
        p.kind is Left || p.kind is Right || p.kind is Both,
    ensures
        painted(columns, columns.len(), dist).contains(p) <==> p.col < columns.len() && {
            let c = p.col as int;
            let l = paints(columns, c, dist, false);
            let r = paints(columns, c, dist, true);
            let (lr, rr) = (columns[c].left.trace, columns[c].right.trace);
            ||| p.kind is Both && l && r && lr == rr && p.row == lr
            ||| p.kind is Left && l && p.row == lr && !(r && lr == rr)
            ||| p.kind is Right && r && p.row == rr && !(l && lr == rr)
        },
{
    lemma_painted(columns, columns.len(), dist, p);
    if p.col < columns.len() {
        let t = tracks_at(columns, p.col as nat, dist);
        let c = columns[p.col as int];
        lemma_links(t, p.col, c, dist, p);
        lemma_marks(t, p.col, c, dist, p);
        let traces = trace_marks(
            p.col,
            trace_row(t.left, p.col, c.left.trace, dist),
            trace_row(t.right, p.col, c.right.trace, dist),
        );
        if traces.len() > 0 {
            assert(traces.contains(traces[0]));
        }
        if traces.len() > 1 {
            assert(traces.contains(traces[1]));
        }
        if traces.contains(p) {
            let i = choose|i: int| 0 <= i < traces.len() && traces[i] == p;
            assert(i == 0 || i == 1);
        }
    }
}

proof fn lemma_shows_exactly(columns: Seq<ColumnRows>, dist: int, c: int, right: bool)
    requires
        0 <= c < columns.len() <= usize::MAX,
    ensures
        shows_trace(painted(columns, columns.len(), dist), columns, c, right) <==> paints(
            columns,
            c,
            dist,
            right,
        ),
{
    let row = row_of(columns[c], right);
    lemma_trace_point(columns, dist, Point { col: c as usize, row, kind: trace_kind(right) });
    lemma_trace_point(columns, dist, Point { col: c as usize, row, kind: PointKind::Both });
}

/// A track remembers the last column that painted, and its row.
proof fn lemma_last(columns: Seq<ColumnRows>, n: int, dist: int, right: bool)
    requires
        0 <= n <= columns.len() <= usize::MAX,
    ensures
        ({
            let last = channel(tracks_at(columns, n as nat, dist), right);
            &&& last is None <==> n == 0
            &&& last is Some ==> {
                let a = (last->0).0 as int;
                &&& 0 <= a < n
                &&& paints(columns, a, dist, right)
                &&& (last->0).1 == row_of(columns[a], right)
                &&& forall|c: int| a < c < n ==> !#[trigger] paints(columns, c, dist, right)
            }
        }),
    decreases n,
{
    if n > 0 {
        lemma_last(columns, n - 1, dist, right);
        assert((n as nat - 1) as nat == (n - 1) as nat);
    }
}

proof fn lemma_cell(columns: Seq<ColumnRows>, dist: int, col: usize, row: u16)
    requires
        columns.len() <= usize::MAX,
    ensures
        cell_painted(painted(columns, columns.len(), dist), col, row) <==> col < columns.len() && {
            let t = tracks_at(columns, col as nat, dist);
            ||| row_taken(links(t, col, columns[col as int], dist), row)
            ||| row_taken(marks(t, col, columns[col as int], dist), row)
        },
{
    let all = painted(columns, columns.len(), dist);
    let t = tracks_at(columns, col as nat, dist);
    let a = links(t, col, columns[col as int], dist);
    let b = marks(t, col, columns[col as int], dist);
    if cell_painted(all, col, row) {
        let i = choose|i: int|
            0 <= i < all.len() && (#[trigger] all[i]).col == col && all[i].row == row;
        let p = all[i];
        assert(all.contains(p));
        lemma_painted(columns, columns.len(), dist, p);
        if a.contains(p) {
            let j = choose|j: int| 0 <= j < a.len() && a[j] == p;
            assert(a[j].row == row);
        } else {
            let j = choose|j: int| 0 <= j < b.len() && b[j] == p;
            assert(b[j].row == row);
        }
    }
    if col < columns.len() && (row_taken(a, row) || row_taken(b, row)) {
        let p = if row_taken(a, row) {
            a[choose|j: int| 0 <= j < a.len() && (#[trigger] a[j]).row == row]
        } else {
            b[choose|j: int| 0 <= j < b.len() && (#[trigger] b[j]).row == row]
        };
        if row_taken(a, row) {
            assert(a.contains(p));
        } else {
            assert(b.contains(p));
        }
        lemma_links(t, col, columns[col as int], dist, p);
        lemma_marks(t, col, columns[col as int], dist, p);
        assert(p.col == col);
        lemma_painted(columns, columns.len(), dist, p);
        let i = choose|i: int| 0 <= i < all.len() && all[i] == p;
        assert(all[i].col == col && all[i].row == row);
    }
}

proof fn lemma_mirrored_tracks(columns: Seq<ColumnRows>, n: nat, dist: int)
    requires
        n <= columns.len(),
    ensures
        ({
            let t = tracks_at(columns, n, dist);
            tracks_at(exchanged(columns), n, dist) == (Tracks {
                left: t.right,
                left_accents: t.right_accents,
                right: t.left,
                right_accents: t.left_accents,
            })
        }),
    decreases n,
{
    if n > 0 {
        lemma_mirrored_tracks(columns, (n - 1) as nat, dist);
    }
}

/// The kind with the channels in each other's place.
spec fn mirrored_kind(kind: PointKind) -> PointKind {
    match kind {
        PointKind::LeftLink => PointKind::RightLink,
        PointKind::RightLink => PointKind::LeftLink,
        PointKind::Both => PointKind::Both,
        PointKind::Left => PointKind::Right,
        PointKind::Right => PointKind::Left,
        PointKind::LeftAccent => PointKind::RightAccent,
        PointKind::RightAccent => PointKind::LeftAccent,
    }
}

proof fn lemma_mirrored_point(
    columns: Seq<ColumnRows>,
    dist: int,
    col: usize,
    row: u16,
    kind: PointKind,
)
    requires
        columns.len() <= usize::MAX,
        !(kind is LeftAccent) && !(kind is RightAccent),
    ensures
        painted(columns, columns.len(), dist).contains(Point { col, row, kind }) <==> painted(
            exchanged(columns),
            columns.len(),
            dist,
        ).contains(Point { col, row, kind: mirrored_kind(kind) }),
{
    let p = Point { col, row, kind };
    let q = Point { col, row, kind: mirrored_kind(kind) };
    let other = exchanged(columns);
    assert(other.len() == columns.len());
    if col < columns.len() {
        lemma_mirrored_tracks(columns, col as nat, dist);
    }
    if kind is LeftLink || kind is RightLink {
        lemma_painted(columns, columns.len(), dist, p);
        lemma_painted(other, columns.len(), dist, q);
        if col < columns.len() {
            let t = tracks_at(columns, col as nat, dist);
            let u = tracks_at(other, col as nat, dist);
            lemma_links(t, col, columns[col as int], dist, p);
            lemma_links(u, col, other[col as int], dist, q);
            lemma_marks(t, col, columns[col as int], dist, p);
            lemma_marks(u, col, other[col as int], dist, q);
            assert(link_kind(true) == PointKind::RightLink);
            assert(link_kind(false) == PointKind::LeftLink);
        }
    } else {
        lemma_trace_point(columns, dist, p);
        lemma_trace_point(other, dist, q);
    }
}

/// The rows of a channel in a column.
pub open spec fn rows_of(c: ColumnRows, right: bool) -> ChannelRows {
    if right {
        c.right
    } else {
        c.left
    }
}

/// The channel has two extremes beside its trace.
pub open spec fn has_two_extremes(c: ColumnRows, right: bool) -> bool {
    let r = rows_of(c, right);
    r.low != r.trace && r.high != r.trace && r.low != r.high
}

/// The extremes of the first column that are not in the row of its trace are
/// painted; and where a column has two of them, the lesser one of the next column is
/// painted too unless it is in the row of the greater one before it.
pub proof fn law_both_extremes_are_painted(
    columns: Vec<ColumnRows>,
    min_dist: usize,
    points: Vec<Point>,
    c: int,
    right: bool,
)
    requires
        call_ensures(trace_points, (&columns, min_dist), points),
        0 <= c < columns@.len(),
    ensures
        ({
            let r = rows_of(columns@[c], right);
            &&& c == 0 && r.low != r.trace ==> cell_painted(points@, 0, r.low)
            &&& c == 0 && r.high != r.trace ==> cell_painted(points@, 0, r.high)
            &&& c > 0 && has_two_extremes(columns@[c - 1], right) && r.low != r.trace && r.low
                != rows_of(columns@[c - 1], right).high ==> cell_painted(
                points@,
                c as usize,
                r.low,
            )
        }),
{
    let cols = columns@;
    let dist = min_dist as int;
    assert(columns@.len() == columns.len());
    let t = tracks_at(cols, c as nat, dist);
    let r = rows_of(cols[c], right);
    let last = if right {
        t.right_accents
    } else {
        t.left_accents
    };
    if c > 0 && has_two_extremes(cols[c - 1], right) {
        let before = tracks_at(cols, (c - 1) as nat, dist);
        let prev = rows_of(cols[c - 1], right);
        let old_last = if right {
            before.right_accents
        } else {
            before.left_accents
        };
        let all = accent_rows(prev);
        lemma_two_accents(prev);
        assert(all.last() == prev.high);
        assert(last == accent_track(all, old_last, (c - 1) as usize, dist));
        assert(last is Some && (last->0).1 == prev.high);
    }
    let paints_low = c == 0 || (has_two_extremes(cols[c - 1], right) && r.low != rows_of(
        cols[c - 1],
        right,
    ).high);
    let all = accent_rows(r);
    let out = accents_painted(all, last, c as usize, dist);
    if r.low != r.trace && paints_low {
        assert(all[0] == r.low);
        lemma_first_accent(all, last, c as usize, dist);
        lemma_marks_row(t, c as usize, cols[c], dist, r.low);
        lemma_cell(cols, dist, c as usize, r.low);
    }
    if c == 0 && r.high != r.trace {
        if has_two_extremes(cols[c], right) {
            law_extremes_are_painted(columns, min_dist, points, c, right, r.high);
        } else {
            assert(r.low == r.trace || r.low == r.high);
            assert(!Seq::<u16>::empty().contains(r.high));
            if r.low == r.high {
                assert(seq![r.low][0] == r.low);
            }
            assert(all[0] == r.high);
            lemma_first_accent(all, last, c as usize, dist);
            lemma_marks_row(t, c as usize, cols[c], dist, r.high);
            lemma_cell(cols, dist, c as usize, r.high);
        }
    }
}

proof fn lemma_two_accents(r: ChannelRows)
    requires
        r.low != r.trace,
        r.high != r.trace,
        r.low != r.high,
    ensures
        accent_rows(r) == seq![r.low, r.high],
{
    assert(seq![r.low][0] == r.low);
    assert(!seq![r.low].contains(r.high));
    assert(accent_rows(r) =~= seq![r.low, r.high]);
}

/// The first accent of a column is painted if its row is not that of the last one.
proof fn lemma_first_accent(rows: Seq<u16>, last: Option<(usize, u16)>, col: usize, dist: int)
    requires
        1 <= rows.len() <= 2,
        last is None || (last->0).1 != rows[0],
    ensures
        accents_painted(rows, last, col, dist).contains(rows[0]),
{
    let none = Seq::<u16>::empty();
    assert(accent_track(none, last, col, dist) == last);
    let one = seq![rows[0]];
    assert(one.drop_last() =~= none);
    let a = accents_painted(one, last, col, dist);
    assert(a =~= accents_painted(none, last, col, dist).push(rows[0]));
    assert(a[a.len() - 1] == rows[0]);
    if rows.len() == 1 {
        assert(rows =~= one);
    } else {
        assert(rows.drop_last() =~= one);
        let out = accents_painted(rows, last, col, dist);
        assert(out[a.len() - 1] == rows[0]);
    }
}

/// When a point is painted: by columns, and in a column the links of the left
/// channel, those of the right one, and then the rest.
pub open spec fn turn_of(p: Point) -> int {
    3 * p.col + match p.kind {
        PointKind::LeftLink => 0int,
        PointKind::RightLink => 1int,
        _ => 2int,
    }
}

/// The columns are painted from left to right, and in each of them links before
/// traces and accents, so that a link never hides a point.
pub proof fn law_links_lie_below(
    columns: Vec<ColumnRows>,
    min_dist: usize,
    points: Vec<Point>,
    i: int,
    j: int,
)
    requires
        call_ensures(trace_points, (&columns, min_dist), points),
        0 <= i < j < points@.len(),
    ensures
        turn_of(points@[i]) <= turn_of(points@[j]),
{
    assert(columns@.len() == columns.len());
    lemma_turns(columns@, columns@.len(), min_dist as int);
}

/// The points come in turn, all between two turns.
spec fn in_turn(points: Seq<Point>, lo: int, hi: int) -> bool {
    &&& forall|i: int| 0 <= i < points.len() ==> lo <= #[trigger] turn_of(points[i]) < hi
    &&& forall|i: int, j: int|
        0 <= i < j < points.len() ==> #[trigger] turn_of(points[i]) <= #[trigger] turn_of(points[j])
}

proof fn lemma_turns_join(a: Seq<Point>, b: Seq<Point>, lo: int, mid: int, hi: int)
    requires
        in_turn(a, lo, mid),
        in_turn(b, mid, hi),
        lo <= mid <= hi,
    ensures
        in_turn(a + b, lo, hi),
{
    let all = a + b;
    assert forall|i: int| 0 <= i < all.len() implies lo <= #[trigger] turn_of(all[i]) < hi by {
        if i < a.len() {
            assert(lo <= turn_of(a[i]) < mid);
        } else {
            assert(mid <= turn_of(b[i - a.len()]) < hi);
        }
    }
    assert forall|i: int, j: int| 0 <= i < j < all.len() implies #[trigger] turn_of(all[i])
        <= #[trigger] turn_of(all[j]) by {
        if j < a.len() {
            assert(turn_of(a[i]) <= turn_of(a[j]));
        } else if i < a.len() {
            assert(turn_of(a[i]) < mid <= turn_of(b[j - a.len()]));
        } else {
            assert(turn_of(b[i - a.len()]) <= turn_of(b[j - a.len()]));
        }
    }
}

proof fn lemma_turns(columns: Seq<ColumnRows>, n: nat, dist: int)
    requires
        n <= columns.len() <= usize::MAX,
    ensures
        in_turn(painted(columns, n, dist), 0, 3 * n as int),
    decreases n,
{
    if n > 0 {
        let m = (n - 1) as nat;
        lemma_turns(columns, m, dist);
        let t = tracks_at(columns, m, dist);
        let (col, c) = (m as usize, columns[m as int]);
        let a = if emits(t.left, col as int, c.left.trace, dist) {
            link_points(t.left, col, c.left.trace, dist, PointKind::LeftLink)
        } else {
            Seq::empty()
        };
        let b = if emits(t.right, col as int, c.right.trace, dist) {
            link_points(t.right, col, c.right.trace, dist, PointKind::RightLink)
        } else {
            Seq::empty()
        };
        let d = marks(t, col, c, dist);
        let first = 3 * m as int;
        assert forall|i: int| 0 <= i < a.len() implies #[trigger] turn_of(a[i]) == first by {
            assert(a.contains(a[i]));
            lemma_link_points(t.left, col, c.left.trace, dist, PointKind::LeftLink, a[i]);
        }
        assert forall|i: int| 0 <= i < b.len() implies #[trigger] turn_of(b[i]) == first + 1 by {
            assert(b.contains(b[i]));
            lemma_link_points(t.right, col, c.right.trace, dist, PointKind::RightLink, b[i]);
        }
        assert forall|i: int| 0 <= i < d.len() implies #[trigger] turn_of(d[i]) == first + 2 by {
            assert(d.contains(d[i]));
            lemma_marks(t, col, c, dist, d[i]);
            let traces = trace_marks(
                col,
                trace_row(t.left, col, c.left.trace, dist),
                trace_row(t.right, col, c.right.trace, dist),
            );
            if traces.contains(d[i]) {
                let k = choose|k: int| 0 <= k < traces.len() && traces[k] == d[i];
                assert(!(traces[k].kind is LeftLink) && !(traces[k].kind is RightLink));
            }
        }
        lemma_turns_join(painted(columns, m, dist), a, 0, first, first + 1);
        lemma_turns_join(painted(columns, m, dist) + a, b, 0, first + 1, first + 2);
        lemma_turns_join(painted(columns, m, dist) + a + b, d, 0, first + 2, first + 3);
        assert(links(t, col, c, dist) == a + b);
        assert(painted(columns, m, dist) + links(t, col, c, dist) =~= painted(columns, m, dist) + a
            + b);
    }
}

} // verus!
