//! The stereo scope: which points of a waveform are painted, and how.
//!
//! Both channels share the columns. A column has, for each channel, the row of
//! its trace and the rows of its least and greatest value; what is painted of
//! them follows from what the track of the channel painted before.

use vstd::prelude::*;

use crate::contrast::{blend, blend_by, WHITE};
#[allow(unused_imports)]
use crate::contrast::{
    blended, blended_by, law_blend_lies_between, lemma_mixed_by_near, mixed, mixed_by,
};
#[allow(unused_imports)]
use crate::cover::dist_sq;
use crate::domain::SECOND;
use crate::float::{Float, SINGLE};
#[allow(unused_imports)]
use crate::float::{
    finer, is_number, lemma_number_at_most, lemma_number_sign, lemma_place_at_most,
    lemma_product_ranges, lemma_single, lemma_two, lemma_two_adds, lemma_two_grows, lemma_two_values,
    less, product, ranges, single_of, single_one, two, units,
};
use crate::glyphs::UiGlyphs;
#[allow(unused_imports)]
use crate::glyphs::glyph;
#[allow(unused_imports)]
use crate::layout::{greater, lesser, monus};
#[allow(unused_imports)]
use crate::palette::{ceiling_of, channels_of, law_channels_are_distinct};
use crate::palette::VisualTheme;

verus! {

/// Buckets of a waveform.
pub const WAVEFORM_BUCKETS: usize = 128;

/// Bars of the spectrum.
pub const VISUAL_BARS: usize = 24;

/// Columns that equal points of a track keep between them.
pub const SCATTER_MIN_DIST: usize = 2;

/// Columns that a silent scene adds to that.
pub const QUIET_DIST: usize = 4;

/// First bucket of a column, and the first one behind it.
pub open spec fn bucket_range(w: int, col: int) -> (int, int) {
    let lo = col * 128 / w;
    (lo, greater((col + 1) * 128 / w, lo + 1))
}

/// The buckets of a column lie inside the waveform.
pub proof fn law_buckets_stay_in_the_waveform(w: int, col: int)
    requires
        0 <= col < w,
    ensures
        ({
            let (lo, hi) = bucket_range(w, col);
            0 <= lo < hi <= 128
        }),
{
    assert(0 <= col * 128 / w < 128) by (nonlinear_arith)
        requires
            0 <= col < w,
    ;
    assert((col + 1) * 128 / w <= 128) by (nonlinear_arith)
        requires
            0 <= col < w,
    ;
}

/// Every bucket is shown by some column, however many columns there are.
pub proof fn law_every_bucket_is_shown(w: int, b: int)
    requires
        0 < w,
        0 <= b < 128,
    ensures
        exists|col: int|
            0 <= col < w && (#[trigger] bucket_range(w, col)).0 <= b < bucket_range(w, col).1,
{
    let col = ((b + 1) * w - 1) / 128;
    let n = (b + 1) * w;
    assert(0 < n <= 128 * w) by (nonlinear_arith)
        requires
            n == (b + 1) * w,
            0 < w,
            0 <= b < 128,
    ;
    assert(0 <= col < w);
    assert(col * 128 < n && (col + 1) * 128 >= n);
    assert(col * 128 / w <= b) by (nonlinear_arith)
        requires
            col * 128 < n,
            n == (b + 1) * w,
            0 < w,
    ;
    assert((col + 1) * 128 / w >= b + 1) by (nonlinear_arith)
        requires
            (col + 1) * 128 >= n,
            n == (b + 1) * w,
            0 < w,
    ;
    assert(bucket_range(w, col).0 <= b < bucket_range(w, col).1);
}

/// The columns of every width share the waveform out from its first bucket to its
/// last: each range starts inside or right behind the one before it, and none
/// ends before it.
pub proof fn law_buckets_adjoin(w: int, col: int)
    requires
        0 <= col,
        col + 1 < w,
    ensures
        ({
            let (lo, hi) = bucket_range(w, col);
            let (next_lo, next_hi) = bucket_range(w, col + 1);
            lo <= next_lo <= hi <= next_hi
        }),
        bucket_range(w, 0).0 == 0,
        bucket_range(w, w - 1).1 == 128,
{
    law_bucket_ends(w);
    assert(col * 128 / w <= (col + 1) * 128 / w <= (col + 2) * 128 / w) by (nonlinear_arith)
        requires
            0 <= col,
            0 < w,
    ;
}

/// The first column starts at the first bucket, and the last one ends behind the
/// last.
pub proof fn law_bucket_ends(w: int)
    requires
        0 < w,
    ensures
        bucket_range(w, 0).0 == 0,
        bucket_range(w, w - 1).1 == 128,
{
    law_buckets_stay_in_the_waveform(w, w - 1);
    assert(0int * 128 / w == 0) by (nonlinear_arith)
        requires
            0 < w,
    ;
    assert((w - 1 + 1) * 128 / w == 128) by (nonlinear_arith)
        requires
            0 < w,
    ;
}

/// The buckets that a column of an area of `w` columns shows.
pub fn column_bucket_range(w: usize, col: usize) -> (r: (usize, usize))
    requires
        col < w,
        w * 128 <= usize::MAX,
    ensures
        (r.0 as int, r.1 as int) == bucket_range(w as int, col as int),
        r.0 < r.1 <= WAVEFORM_BUCKETS,
{
    proof {
        law_buckets_stay_in_the_waveform(w as int, col as int);
    }
    let lo: usize = col * 128 / w;
    let next: usize = (col + 1) * 128 / w;
    if next > lo + 1 {
        (lo, next)
    } else {
        (lo, lo + 1)
    }
}

/// The bucket whose trace stands for a column: the middle one.
pub fn trace_bucket(w: usize, col: usize) -> (r: usize)
    requires
        col < w,
        w * 128 <= usize::MAX,
    ensures
        ({
            let (lo, hi) = bucket_range(w as int, col as int);
            r == (lo + hi - 1) / 2 && lo <= r < hi
        }),
        r < WAVEFORM_BUCKETS,
{
    let (lo, hi) = column_bucket_range(w, col);
    (lo + hi - 1) / 2
}

/// Columns that equal points of a track keep between them: more in wide areas,
/// more still in a silent scene.
pub open spec fn spacing(w: int, quiet: bool) -> int {
    (if w > 100 {
        3int
    } else {
        2int
    }) + (if quiet {
        4int
    } else {
        0int
    })
}

/// Columns that equal points of a track keep between them in an area of `w`
/// columns.
pub fn scatter_min_dist(w: usize) -> (r: usize)
    ensures
        r == spacing(w as int, false),
{
    if w > 100 {
        3
    } else {
        SCATTER_MIN_DIST
    }
}

/// The spacing of a scene.
pub fn scene_min_dist(w: usize, quiet: bool) -> (r: usize)
    ensures
        r == spacing(w as int, quiet),
{
    scatter_min_dist(w) + if quiet {
        QUIET_DIST
    } else {
        0
    }
}

/// A track paints a point that is its first, that changes its row, or that keeps
/// the spacing from its last one.
pub open spec fn emits(last: Option<(usize, u16)>, col: int, row: u16, dist: int) -> bool {
    match last {
        None => true,
        Some((c, r)) => monus(col, c as int) >= dist || row != r,
    }
}

/// The last point of a track after a candidate.
pub open spec fn track_after(last: Option<(usize, u16)>, col: usize, row: u16, dist: int) -> Option<
    (usize, u16),
> {
    if emits(last, col as int, row, dist) {
        Some((col, row))
    } else {
        last
    }
}

/// Decides whether a track paints a point, and notes it.
pub fn scatter_emit(last: &mut Option<(usize, u16)>, col: usize, row: u16, min_dist: usize) -> (r:
    bool)
    ensures
        r == emits(*old(last), col as int, row, min_dist as int),
        *final(last) == track_after(*old(last), col, row, min_dist as int),
{
    let emit: bool = match *last {
        None => true,
        Some((c, r)) => (if col > c {
            col - c
        } else {
            0
        }) >= min_dist || row != r,
    };
    if emit {
        *last = Some((col, row));
    }
    emit
}

/// The rows of a channel in one column.
#[derive(Debug, Clone, Copy, PartialEq, Eq, Structural)]
pub struct ChannelRows {
    /// Row of the trace.
    pub trace: u16,
    /// Row of the least value.
    pub low: u16,
    /// Row of the greatest value.
    pub high: u16,
}

/// The rows of both channels in one column.
#[derive(Debug, Clone, Copy, PartialEq, Eq, Structural)]
pub struct ColumnRows {
    pub left: ChannelRows,
    pub right: ChannelRows,
}

/// What a point is part of.
#[derive(Debug, Clone, Copy, PartialEq, Eq, Structural)]
pub enum PointKind {
    LeftLink,
    RightLink,
    /// The traces of both channels in one cell.
    Both,
    Left,
    Right,
    LeftAccent,
    RightAccent,
}

/// A painted point. Of two in one cell the later one shows.
#[derive(Debug, Clone, Copy, PartialEq, Eq, Structural)]
pub struct Point {
    pub col: usize,
    pub row: u16,
    pub kind: PointKind,
}

/// The last points of the four tracks.
#[derive(Debug, Clone, Copy, PartialEq, Eq)]
pub struct Tracks {
    pub left: Option<(usize, u16)>,
    pub left_accents: Option<(usize, u16)>,
    pub right: Option<(usize, u16)>,
    pub right_accents: Option<(usize, u16)>,
}

/// The rows of the extremes that differ from the trace and from each other.
pub open spec fn accent_rows(c: ChannelRows) -> Seq<u16> {
    let first = if c.low != c.trace {
        seq![c.low]
    } else {
        Seq::empty()
    };
    if c.high != c.trace && !first.contains(c.high) {
        first.push(c.high)
    } else {
        first
    }
}

/// The accents that their track paints.
pub open spec fn accents_painted(
    rows: Seq<u16>,
    last: Option<(usize, u16)>,
    col: usize,
    dist: int,
) -> Seq<u16>
    decreases rows.len(),
{
    if rows.len() == 0 {
        Seq::empty()
    } else {
        let before = accents_painted(rows.drop_last(), last, col, dist);
        if emits(accent_track(rows.drop_last(), last, col, dist), col as int, rows.last(), dist) {
            before.push(rows.last())
        } else {
            before
        }
    }
}

/// The last point of an accent track after some candidates.
pub open spec fn accent_track(
    rows: Seq<u16>,
    last: Option<(usize, u16)>,
    col: usize,
    dist: int,
) -> Option<(usize, u16)>
    decreases rows.len(),
{
    if rows.len() == 0 {
        last
    } else {
        track_after(accent_track(rows.drop_last(), last, col, dist), col, rows.last(), dist)
    }
}

/// A point is tied to the last one of its track if that one is near and more
/// than one row away.
pub open spec fn linked(prev: Option<(usize, u16)>, col: int, row: u16, dist: int) -> bool {
    match prev {
        None => false,
        Some((c, r)) => monus(col, c as int) <= greater(dist, 1) && (r - row > 1 || row - r > 1),
    }
}

/// The points of a kind in the rows from `lo` to `hi`, both left out.
pub open spec fn between_rows(col: usize, lo: int, hi: int, kind: PointKind) -> Seq<Point> {
    Seq::new(
        (if hi - lo > 1 {
            hi - lo - 1
        } else {
            0
        }) as nat,
        |i: int| Point { col, row: (lo + 1 + i) as u16, kind },
    )
}

/// The points that tie a point to the last one of its track: the rows between
/// them, in its own column.
pub open spec fn link_points(
    prev: Option<(usize, u16)>,
    col: usize,
    row: u16,
    dist: int,
    kind: PointKind,
) -> Seq<Point> {
    if linked(prev, col as int, row, dist) {
        let r = (prev->0).1;
        between_rows(
            col,
            lesser(r as int, row as int),
            greater(r as int, row as int),
            kind,
        )
    } else {
        Seq::empty()
    }
}

/// The points of the two traces in a column.
pub open spec fn trace_marks(
    col: usize,
    left: Option<u16>,
    right: Option<u16>,
) -> Seq<Point> {
    match (left, right) {
        (Some(l), Some(r)) => if l == r {
            seq![Point { col, row: l, kind: PointKind::Both }]
        } else {
            seq![
                Point { col, row: l, kind: PointKind::Left },
                Point { col, row: r, kind: PointKind::Right },
            ]
        },
        (Some(l), None) => seq![Point { col, row: l, kind: PointKind::Left }],
        (None, Some(r)) => seq![Point { col, row: r, kind: PointKind::Right }],
        (None, None) => Seq::empty(),
    }
}

/// Some point lies in the row.
pub open spec fn row_taken(points: Seq<Point>, row: u16) -> bool {
    exists|i: int| 0 <= i < points.len() && (#[trigger] points[i]).row == row
}

/// The points of a column with accents added in the rows that are still free.
pub open spec fn with_accents(points: Seq<Point>, col: usize, rows: Seq<u16>, kind: PointKind) -> Seq<
    Point,
>
    decreases rows.len(),
{
    if rows.len() == 0 {
        points
    } else {
        let before = with_accents(points, col, rows.drop_last(), kind);
        if row_taken(before, rows.last()) {
            before
        } else {
            before.push(Point { col, row: rows.last(), kind })
        }
    }
}

/// The row of a trace, if its track paints it.
pub open spec fn trace_row(last: Option<(usize, u16)>, col: usize, row: u16, dist: int) -> Option<
    u16,
> {
    if emits(last, col as int, row, dist) {
        Some(row)
    } else {
        None
    }
}

/// The points of a column, links apart: the traces, then the accents of the
/// left channel, then those of the right one.
pub open spec fn marks(t: Tracks, col: usize, c: ColumnRows, dist: int) -> Seq<Point> {
    let traces = trace_marks(
        col,
        trace_row(t.left, col, c.left.trace, dist),
        trace_row(t.right, col, c.right.trace, dist),
    );
    let left = accents_painted(accent_rows(c.left), t.left_accents, col, dist);
    let right = accents_painted(accent_rows(c.right), t.right_accents, col, dist);
    with_accents(
        with_accents(traces, col, left, PointKind::LeftAccent),
        col,
        right,
        PointKind::RightAccent,
    )
}

/// The links of a column.
pub open spec fn links(t: Tracks, col: usize, c: ColumnRows, dist: int) -> Seq<Point> {
    (if emits(t.left, col as int, c.left.trace, dist) {
        link_points(t.left, col, c.left.trace, dist, PointKind::LeftLink)
    } else {
        Seq::empty()
    }) + (if emits(t.right, col as int, c.right.trace, dist) {
        link_points(t.right, col, c.right.trace, dist, PointKind::RightLink)
    } else {
        Seq::empty()
    })
}

/// The tracks after a column.
pub open spec fn tracks_after(t: Tracks, col: usize, c: ColumnRows, dist: int) -> Tracks {
    Tracks {
        left: track_after(t.left, col, c.left.trace, dist),
        left_accents: accent_track(accent_rows(c.left), t.left_accents, col, dist),
        right: track_after(t.right, col, c.right.trace, dist),
        right_accents: accent_track(accent_rows(c.right), t.right_accents, col, dist),
    }
}

pub open spec fn no_tracks() -> Tracks {
    Tracks { left: None, left_accents: None, right: None, right_accents: None }
}

/// The tracks before column `n`.
pub open spec fn tracks_at(columns: Seq<ColumnRows>, n: nat, dist: int) -> Tracks
    decreases n,
{
    if n == 0 {
        no_tracks()
    } else {
        tracks_after(
            tracks_at(columns, (n - 1) as nat, dist),
            (n - 1) as usize,
            columns[n - 1],
            dist,
        )
    }
}

/// What the first `n` columns paint, in the order of painting: column by column,
/// the links before the marks.
pub open spec fn painted(columns: Seq<ColumnRows>, n: nat, dist: int) -> Seq<Point>
    decreases n,
{
    if n == 0 {
        Seq::empty()
    } else {
        let m = (n - 1) as nat;
        let t = tracks_at(columns, m, dist);
        painted(columns, m, dist) + links(t, m as usize, columns[m as int], dist) + marks(
            t,
            m as usize,
            columns[m as int],
            dist,
        )
    }
}

fn accents_of(c: ChannelRows) -> (r: Vec<u16>)
    ensures
        r@ == accent_rows(c),
{
    let mut rows: Vec<u16> = Vec::new();
    if c.low != c.trace {
        rows.push(c.low);
        assert(rows@ =~= seq![c.low]);
    } else {
        assert(rows@ =~= Seq::<u16>::empty());
    }
    proof {
        if rows@.len() == 1 {
            assert(rows@[0] == c.low);
            assert(rows@.contains(c.high) <==> c.low == c.high);
        }
    }
    if c.high != c.trace && !(c.low != c.trace && c.low == c.high) {
        rows.push(c.high);
    }
    rows
}

fn paint_accents(
    rows: &Vec<u16>,
    last: &mut Option<(usize, u16)>,
    col: usize,
    min_dist: usize,
) -> (r: Vec<u16>)
    ensures
        r@ == accents_painted(rows@, *old(last), col, min_dist as int),
        *final(last) == accent_track(rows@, *old(last), col, min_dist as int),
{
    let ghost first = *last;
    let mut out: Vec<u16> = Vec::new();
    let mut i: usize = 0;
    proof {
        assert(rows@.take(0) =~= Seq::<u16>::empty());
    }
    while i < rows.len()
        invariant
            0 <= i <= rows@.len(),
            out@ == accents_painted(rows@.take(i as int), first, col, min_dist as int),
            *last == accent_track(rows@.take(i as int), first, col, min_dist as int),
        decreases rows@.len() - i,
    {
        proof {
            assert(rows@.take(i + 1).drop_last() =~= rows@.take(i as int));
            assert(rows@.take(i + 1).last() == rows@[i as int]);
        }
        if scatter_emit(last, col, rows[i], min_dist) {
            out.push(rows[i]);
        }
        i = i + 1;
    }
    proof {
        assert(rows@.take(rows@.len() as int) =~= rows@);
    }
    out
}

fn push_links(
    out: &mut Vec<Point>,
    prev: Option<(usize, u16)>,
    col: usize,
    row: u16,
    min_dist: usize,
    kind: PointKind,
)
    ensures
        final(out)@ == old(out)@ + link_points(prev, col, row, min_dist as int, kind),
{
    let ghost before = out@;
    let (c, r) = match prev {
        None => {
            assert(out@ =~= before + link_points(prev, col, row, min_dist as int, kind));
            return;
        },
        Some(p) => p,
    };
    let near: usize = if min_dist > 1 {
        min_dist
    } else {
        1
    };
    let apart: usize = if col > c {
        col - c
    } else {
        0
    };
    let (lo, hi): (u16, u16) = if r < row {
        (r, row)
    } else {
        (row, r)
    };
    if apart > near || hi - lo <= 1 {
        assert(out@ =~= before + link_points(prev, col, row, min_dist as int, kind));
        return;
    }
    let ghost all = between_rows(col, lo as int, hi as int, kind);
    let mut y: u16 = lo + 1;
    proof {
        assert(out@ =~= before + all.take(0));
    }
    while y < hi
        invariant
            lo < y <= hi,
            all == between_rows(col, lo as int, hi as int, kind),
            out@ == before + all.take(y - lo - 1),
        decreases hi - y,
    {
        out.push(Point { col, row: y, kind });
        proof {
            assert(all[y - lo - 1] == Point { col, row: y, kind });
            assert(before + all.take(y + 1 - lo - 1) =~= (before + all.take(y - lo - 1)).push(
                all[y - lo - 1],
            ));
        }
        y = y + 1;
    }
    proof {
        assert(all.take(hi - lo - 1) =~= all);
    }
}

fn is_taken(points: &Vec<Point>, row: u16) -> (r: bool)
    ensures
        r == row_taken(points@, row),
{
    let mut i: usize = 0;
    while i < points.len()
        invariant
            0 <= i <= points@.len(),
            forall|k: int| 0 <= k < i ==> (#[trigger] points@[k]).row != row,
        decreases points@.len() - i,
    {
        if points[i].row == row {
            return true;
        }
        i = i + 1;
    }
    false
}

fn add_accents(points: &mut Vec<Point>, col: usize, rows: &Vec<u16>, kind: PointKind)
    ensures
        final(points)@ == with_accents(old(points)@, col, rows@, kind),
{
    let ghost first = points@;
    let mut i: usize = 0;
    proof {
        assert(rows@.take(0) =~= Seq::<u16>::empty());
    }
    while i < rows.len()
        invariant
            0 <= i <= rows@.len(),
            points@ == with_accents(first, col, rows@.take(i as int), kind),
        decreases rows@.len() - i,
    {
        proof {
            assert(rows@.take(i + 1).drop_last() =~= rows@.take(i as int));
            assert(rows@.take(i + 1).last() == rows@[i as int]);
        }
        if !is_taken(points, rows[i]) {
            points.push(Point { col, row: rows[i], kind });
        }
        i = i + 1;
    }
    proof {
        assert(rows@.take(rows@.len() as int) =~= rows@);
    }
}

fn marks_of(col: usize, left: Option<u16>, right: Option<u16>) -> (r: Vec<Point>)
    ensures
        r@ == trace_marks(col, left, right),
{
    let mut points: Vec<Point> = Vec::new();
    match (left, right) {
        (Some(l), Some(r)) => {
            if l == r {
                points.push(Point { col, row: l, kind: PointKind::Both });
            } else {
                points.push(Point { col, row: l, kind: PointKind::Left });
                points.push(Point { col, row: r, kind: PointKind::Right });
            }
        },
        (Some(l), None) => {
            points.push(Point { col, row: l, kind: PointKind::Left });
        },
        (None, Some(r)) => {
            points.push(Point { col, row: r, kind: PointKind::Right });
        },
        (None, None) => {},
    }
    assert(points@ =~= trace_marks(col, left, right));
    points
}

/// Paints one column: its links, then its marks.
fn paint_column(
    out: &mut Vec<Point>,
    tracks: &mut Tracks,
    col: usize,
    c: ColumnRows,
    min_dist: usize,
)
    ensures
        final(out)@ == old(out)@ + links(*old(tracks), col, c, min_dist as int) + marks(
            *old(tracks),
            col,
            c,
            min_dist as int,
        ),
        *final(tracks) == tracks_after(*old(tracks), col, c, min_dist as int),
{
    let ghost before = out@;
    let first = *tracks;
    let ghost dist = min_dist as int;
    let left_emits = scatter_emit(&mut tracks.left, col, c.left.trace, min_dist);
    if left_emits {
        push_links(out, first.left, col, c.left.trace, min_dist, PointKind::LeftLink);
    }
    let ghost left_links = if emits(first.left, col as int, c.left.trace, dist) {
        link_points(first.left, col, c.left.trace, dist, PointKind::LeftLink)
    } else {
        Seq::empty()
    };
    assert(out@ =~= before + left_links);
    let left_rows = accents_of(c.left);
    let left_accents = paint_accents(&left_rows, &mut tracks.left_accents, col, min_dist);
    let right_emits = scatter_emit(&mut tracks.right, col, c.right.trace, min_dist);
    if right_emits {
        push_links(out, first.right, col, c.right.trace, min_dist, PointKind::RightLink);
    }
    assert(out@ =~= before + links(first, col, c, dist));
    let right_rows = accents_of(c.right);
    let right_accents = paint_accents(&right_rows, &mut tracks.right_accents, col, min_dist);
    let mut points = marks_of(
        col,
        if left_emits {
            Some(c.left.trace)
        } else {
            None
        },
        if right_emits {
            Some(c.right.trace)
        } else {
            None
        },
    );
    add_accents(&mut points, col, &left_accents, PointKind::LeftAccent);
    add_accents(&mut points, col, &right_accents, PointKind::RightAccent);
    assert(points@ == marks(first, col, c, dist));
    out.append(&mut points);
    assert(out@ =~= before + links(first, col, c, dist) + marks(first, col, c, dist));
}

/// The points of a scope, in the order of painting.
pub fn trace_points(columns: &Vec<ColumnRows>, min_dist: usize) -> (r: Vec<Point>)
    ensures
        r@ == painted(columns@, columns@.len(), min_dist as int),
{
    let mut out: Vec<Point> = Vec::new();
    let mut tracks = Tracks { left: None, left_accents: None, right: None, right_accents: None };
    let mut col: usize = 0;
    while col < columns.len()
        invariant
            0 <= col <= columns@.len(),
            tracks == tracks_at(columns@, col as nat, min_dist as int),
            out@ == painted(columns@, col as nat, min_dist as int),
        decreases columns@.len() - col,
    {
        paint_column(&mut out, &mut tracks, col, columns[col], min_dist);
        col = col + 1;
    }
    out
}

/// The colours of a scope.
#[derive(Debug, Clone, Copy, PartialEq, Eq)]
pub struct TraceColors {
    pub left: [u8; 3],
    pub right: [u8; 3],
    pub both: [u8; 3],
    pub accent: [u8; 3],
    pub left_link: [u8; 3],
    pub right_link: [u8; 3],
}

/// How far a brightness moves a channel towards white: by twelve percent of it, in
/// single precision, and not beyond white. The brightness is a bit pattern; one that
/// is no number or not positive moves nothing.
#[verifier::opaque]
pub open spec fn shine(brightness: u32) -> (int, int) {
    if brightness > 0x7f80_0000 {
        (0, 0)
    } else if brightness == 0x7f80_0000 {
        single_one()
    } else {
        let t = product(single_of(brightness), (16_106_127, -27), 24);
        if less(single_one(), t) {
            single_one()
        } else {
            t
        }
    }
}

fn shine_of(brightness: u32) -> (r: Float)
    ensures
        r@ == shine(brightness),
        ranges(r@, 24, -180, -20),
        r.m >= 0,
{
    proof {
        reveal(shine);
        lemma_two_values();
    }
    if brightness > 0x7f80_0000 {
        return Float { m: 0, e: 0 };
    }
    let one = Float { m: 0x80_0000, e: -23 };
    if brightness == 0x7f80_0000 {
        return one;
    }
    let b = Float::single(brightness);
    let part = Float { m: 16_106_127, e: -27 };
    proof {
        lemma_product_ranges(b@, part@, 24);
    }
    let t = b.times(part, SINGLE);
    if one.below(t, SINGLE) {
        one
    } else {
        proof {
            lemma_up_to_one(t@);
        }
        t
    }
}

proof fn lemma_up_to_one(t: (int, int))
    requires
        is_number(t, 24),
        t.0 >= 0,
        !less(single_one(), t),
    ensures
        t.0 > 0 ==> t.1 <= -23,
{
    lemma_two_values();
    if t.0 > 0 && t.1 > -23 {
        lemma_two(t.1 + 22);
        lemma_two(0);
        let (m, u) = (t.0, two(t.1 + 23));
        assert(m * u >= 2 * m) by (nonlinear_arith)
            requires
                u >= 2,
                m >= 0,
        ;
        assert(units(t, -23) == m * u);
        assert(0x80_0000 * two(0) == 0x80_0000);
    }
}

/// The colour of a channel: that of the theme, dimmed towards the background
/// behind lyrics; elsewhere it shines with the brightness of the scene.
pub open spec fn channel_shade(c: Seq<u8>, t: VisualTheme, subdued: bool, brightness: u32) -> Seq<
    u8,
> {
    if subdued {
        blended(c, ceiling_of(t), 55, 100)
    } else {
        blended_by(c, WHITE@, shine(brightness))
    }
}

/// The background that the points of a scope stand on.
pub open spec fn panel_of(t: VisualTheme, subdued: bool) -> Seq<u8> {
    if subdued {
        ceiling_of(t)
    } else {
        t.background@
    }
}

/// The background that the points of a scope stand on.
pub fn panel_color(theme: &VisualTheme, subdued: bool) -> (r: [u8; 3])
    ensures
        r@ == panel_of(*theme, subdued),
{
    if subdued {
        theme.karaoke_bg_ceiling()
    } else {
        theme.background
    }
}

/// The colours of a scope. The brightness of the scene is the bit pattern of a
/// single-precision number; behind lyrics it is not used.
pub fn trace_colors(theme: &VisualTheme, subdued: bool, brightness: u32) -> (r: TraceColors)
    ensures
        ({
            let panel = panel_of(*theme, subdued);
            &&& r.left@ == channel_shade(channels_of(*theme).0, *theme, subdued, brightness)
            &&& r.right@ == channel_shade(channels_of(*theme).1, *theme, subdued, brightness)
            &&& r.both@ == blended(r.left@, r.right@, 50, 100)
            &&& r.accent@ == (if subdued {
                blended(theme.accent@, ceiling_of(*theme), 55, 100)
            } else {
                theme.accent@
            })
            &&& r.left_link@ == blended(r.left@, panel, 60, 100)
            &&& r.right_link@ == blended(r.right@, panel, 60, 100)
        }),
{
    let channels = theme.channel_colors();
    let mut left = channels.left;
    let mut right = channels.right;
    let mut accent = theme.accent;
    let panel = panel_color(theme, subdued);
    if subdued {
        left = blend(left, panel, 55, 100);
        right = blend(right, panel, 55, 100);
        accent = blend(accent, panel, 55, 100);
    } else {
        let t = shine_of(brightness);
        left = blend_by(left, WHITE, t);
        right = blend_by(right, WHITE, t);
    }
    TraceColors {
        left,
        right,
        both: blend(left, right, 50, 100),
        accent,
        left_link: blend(left, panel, 60, 100),
        right_link: blend(right, panel, 60, 100),
    }
}

impl TraceColors {
    /// The colour of a point.
    pub fn color(&self, kind: PointKind) -> (r: [u8; 3])
        ensures
            r == match kind {
                PointKind::LeftLink => self.left_link,
                PointKind::RightLink => self.right_link,
                PointKind::Both => self.both,
                PointKind::Left => self.left,
                PointKind::Right => self.right,
                PointKind::LeftAccent => self.accent,
                PointKind::RightAccent => self.accent,
            },
    {
        match kind {
            PointKind::LeftLink => self.left_link,
            PointKind::RightLink => self.right_link,
            PointKind::Both => self.both,
            PointKind::Left => self.left,
            PointKind::Right => self.right,
            PointKind::LeftAccent => self.accent,
            PointKind::RightAccent => self.accent,
        }
    }
}

/// The symbol of a point: a dot, in every kind.
pub fn point_symbol(kind: PointKind, glyphs: UiGlyphs) -> (r: &'static str)
    ensures
        r@ == glyph(glyphs.theme, "•"@, "*"@),
{
    match kind {
        PointKind::LeftLink => glyphs.trace_left(),
        PointKind::RightLink => glyphs.trace_right(),
        PointKind::Both => glyphs.trace_both(),
        PointKind::Left => glyphs.trace_left(),
        PointKind::Right => glyphs.trace_right(),
        PointKind::LeftAccent => glyphs.trace_left(),
        PointKind::RightAccent => glyphs.trace_right(),
    }
}

/// Levels of a bar that is one row high.
pub const RAMP: [char; 8] = [' ', '▁', '▂', '▃', '▄', '▅', '▆', '▇'];

/// Levels of a row of a higher bar.
pub const RAMP_TALL: [char; 9] = [' ', '▁', '▂', '▃', '▄', '▅', '▆', '▇', '█'];

/// The bar that a column shows.
pub fn bar_index(col: u16, width: u16) -> (r: usize)
    requires
        col < width,
    ensures
        r == col * 24 / (width as int),
        r < VISUAL_BARS,
{
    proof {
        assert(0 <= col * 24 / (width as int) < 24) by (nonlinear_arith)
            requires
                0 <= col < width,
        ;
    }
    col as usize * VISUAL_BARS / width as usize
}

/// The level of a row of a bar that is `steps` high, `off` rows above its base.
pub open spec fn level_of(steps: int, off: int) -> int {
    lesser(monus(steps, 8 * off), 8)
}

/// The level of a row of a bar.
pub fn bar_level(steps: usize, off: u16) -> (r: usize)
    ensures
        r == level_of(steps as int, off as int),
        r <= 8,
{
    let below: usize = off as usize * 8;
    let left: usize = if steps > below {
        steps - below
    } else {
        0
    };
    if left < 8 {
        left
    } else {
        8
    }
}

/// The symbol of a level in a bar of `rows` rows.
pub fn bar_glyph(rows: u16, level: usize) -> (r: char)
    requires
        level <= 8,
    ensures
        r == if rows == 1 {
            RAMP@[lesser(level as int, 7)]
        } else {
            RAMP_TALL@[level as int]
        },
{
    if rows == 1 {
        if level < 7 {
            RAMP[level]
        } else {
            RAMP[7]
        }
    } else {
        RAMP_TALL[level]
    }
}

/// The colour of a bar by the quarter of its intensity, the lowest of which has
/// none of the theme's.
pub fn bar_color(quarter: usize, theme: &VisualTheme) -> (r: Option<[u8; 3]>)
    ensures
        r == match quarter {
            0 => None,
            1 => Some(theme.accent),
            2 => Some(theme.secondary),
            _ => Some(theme.primary),
        },
{
    match quarter {
        0 => None,
        1 => Some(theme.accent),
        2 => Some(theme.secondary),
        _ => Some(theme.primary),
    }
}

/// Bars that the five bands of the spectrum are anchored to.
pub const BAND_ANCHORS: [usize; 5] = [2, 7, 12, 17, 22];

/// Where a bar stands among the anchors: before the first, on the way from one
/// to the next, or behind the last, and how far, as a fraction.
#[derive(Debug, Clone, Copy, PartialEq, Eq, Structural)]
pub enum BarPlace {
    Head { num: usize, den: usize },
    Between { band: usize, num: usize, den: usize },
    Tail { num: usize, den: usize },
}

/// Where a bar stands among the anchors.
pub fn bar_place(bar: usize) -> (r: BarPlace)
    requires
        bar < VISUAL_BARS,
    ensures
        bar < 2 <==> r is Head,
        bar >= 22 <==> r is Tail,
        r matches BarPlace::Head { num, den } ==> num == bar && den == 2,
        r matches BarPlace::Between { band, num, den } ==> band < 4 && BAND_ANCHORS@[band as int]
            + num == bar && num < den && BAND_ANCHORS@[band as int] + den == BAND_ANCHORS@[band + 1],
        r matches BarPlace::Tail { num, den } ==> num == bar - 21 && den == 2,
{
    if bar < 2 {
        BarPlace::Head { num: bar, den: 2 }
    } else if bar < 7 {
        BarPlace::Between { band: 0, num: bar - 2, den: 5 }
    } else if bar < 12 {
        BarPlace::Between { band: 1, num: bar - 7, den: 5 }
    } else if bar < 17 {
        BarPlace::Between { band: 2, num: bar - 12, den: 5 }
    } else if bar < 22 {
        BarPlace::Between { band: 3, num: bar - 17, den: 5 }
    } else {
        BarPlace::Tail { num: bar - 21, den: 2 }
    }
}

/// The song jumped: it went back, or on by more than two seconds.
pub fn position_jumped(last: Option<u64>, position: u64) -> (r: bool)
    ensures
        r == (last is Some && (position < last->0 || position - last->0 > 2 * SECOND)),
{
    match last {
        None => false,
        Some(p) => position < p || position - p > 2 * SECOND,
    }
}

/// A point that changes the row of its track is painted at once, whatever the
/// spacing.
pub proof fn law_row_changes_are_painted(
    last: Option<(usize, u16)>,
    col: int,
    row: u16,
    dist: int,
)
    requires
        last is None || (last->0).1 != row,
    ensures
        emits(last, col, row, dist),
{
}

/// Points of a track in one row keep the spacing.
pub proof fn law_equal_points_keep_the_spacing(
    last: Option<(usize, u16)>,
    col: int,
    row: u16,
    dist: int,
)
    requires
        emits(last, col, row, dist),
        last is Some,
        (last->0).1 == row,
        dist > 0,
    ensures
        col - (last->0).0 >= dist,
{
}

/// A wide area spaces its points further, and a silent scene further still.
pub proof fn law_spacing_grows(w: int, quiet: bool)
    ensures
        spacing(w, quiet) >= spacing(w, false) >= 2,
        w > 100 ==> spacing(w, quiet) > spacing(100, quiet),
{
}

/// The accents of a channel are at most two, differ from each other and from its
/// trace.
pub proof fn law_accents_add_to_the_trace(c: ChannelRows)
    ensures
        accent_rows(c).len() <= 2,
        forall|i: int| 0 <= i < accent_rows(c).len() ==> #[trigger] accent_rows(c)[i] != c.trace,
        forall|i: int, j: int|
            0 <= i < j < accent_rows(c).len() ==> #[trigger] accent_rows(c)[i]
                != #[trigger] accent_rows(c)[j],
{
    if c.low != c.trace {
        assert(seq![c.low][0] == c.low);
        assert(seq![c.low].contains(c.high) <==> c.low == c.high);
    }
}

/// No two points lie in one row.
pub open spec fn rows_differ(points: Seq<Point>) -> bool {
    forall|i: int, j: int|
        0 <= i < j < points.len() ==> (#[trigger] points[i]).row != (#[trigger] points[j]).row
}

/// All points lie in a column.
pub open spec fn in_column(points: Seq<Point>, col: usize) -> bool {
    forall|i: int| 0 <= i < points.len() ==> (#[trigger] points[i]).col == col
}

proof fn lemma_with_accents(points: Seq<Point>, col: usize, rows: Seq<u16>, kind: PointKind)
    requires
        rows_differ(points),
        in_column(points, col),
    ensures
        rows_differ(with_accents(points, col, rows, kind)),
        in_column(with_accents(points, col, rows, kind), col),
        points.len() <= with_accents(points, col, rows, kind).len(),
        forall|i: int|
            0 <= i < points.len() ==> with_accents(points, col, rows, kind)[i] == #[trigger] points[i],
    decreases rows.len(),
{
    if rows.len() > 0 {
        lemma_with_accents(points, col, rows.drop_last(), kind);
        let before = with_accents(points, col, rows.drop_last(), kind);
        if !row_taken(before, rows.last()) {
            assert(forall|i: int| 0 <= i < before.len() ==> (#[trigger] before[i]).row != rows.last());
        }
    }
}

/// A column paints at most one mark in a cell, all in its own column, and an
/// accent never hides a trace.
pub proof fn law_marks_do_not_overlap(t: Tracks, col: usize, c: ColumnRows, dist: int)
    ensures
        rows_differ(marks(t, col, c, dist)),
        in_column(marks(t, col, c, dist), col),
        ({
            let traces = trace_marks(
                col,
                trace_row(t.left, col, c.left.trace, dist),
                trace_row(t.right, col, c.right.trace, dist),
            );
            &&& traces.len() <= marks(t, col, c, dist).len()
            &&& forall|i: int|
                0 <= i < traces.len() ==> marks(t, col, c, dist)[i] == #[trigger] traces[i]
        }),
{
    let traces = trace_marks(
        col,
        trace_row(t.left, col, c.left.trace, dist),
        trace_row(t.right, col, c.right.trace, dist),
    );
    let left = accents_painted(accent_rows(c.left), t.left_accents, col, dist);
    let right = accents_painted(accent_rows(c.right), t.right_accents, col, dist);
    lemma_with_accents(traces, col, left, PointKind::LeftAccent);
    let mid = with_accents(traces, col, left, PointKind::LeftAccent);
    lemma_with_accents(mid, col, right, PointKind::RightAccent);
    assert forall|i: int| 0 <= i < traces.len() implies marks(t, col, c, dist)[i]
        == #[trigger] traces[i] by {
        assert(mid[i] == traces[i]);
    }
}

/// Links stay in the column of their point and strictly between it and the last
/// point of its track, and only tie points that are near: far points are never
/// joined.
pub proof fn law_links_are_short(
    prev: Option<(usize, u16)>,
    col: usize,
    row: u16,
    dist: int,
    kind: PointKind,
    i: int,
)
    requires
        0 <= i < link_points(prev, col, row, dist, kind).len(),
    ensures
        ({
            let p = link_points(prev, col, row, dist, kind)[i];
            let r = (prev->0).1;
            &&& prev is Some
            &&& monus(col as int, (prev->0).0 as int) <= greater(dist, 1)
            &&& p.col == col
            &&& lesser(r as int, row as int) < p.row < greater(r as int, row as int)
        }),
{
}

proof fn lemma_mixes_stay_apart(a: int, b: int, towards: int, num: int, den: int)
    requires
        0 <= num <= den,
        0 < den,
        b <= a,
    ensures
        den * (mixed(a, towards, num, den) - mixed(b, towards, num, den) + 1) >= (den - num) * (a
            - b),
{
    let va = 2 * (den * a + (towards - a) * num) + den;
    let vb = 2 * (den * b + (towards - b) * num) + den;
    let (qa, qb) = (va / (2 * den), vb / (2 * den));
    assert(va - vb == 2 * ((den - num) * (a - b))) by (nonlinear_arith)
        requires
            va == 2 * (den * a + (towards - a) * num) + den,
            vb == 2 * (den * b + (towards - b) * num) + den,
    ;
    assert(2 * (den * (qa - qb + 1)) >= va - vb) by (nonlinear_arith)
        requires
            0 < den,
            qa == va / (2 * den),
            qb == vb / (2 * den),
    ;
}

/// A brightness of up to one moves a channel by at most twelve percent.
proof fn lemma_shine(brightness: u32)
    requires
        brightness <= 0x3f80_0000,
    ensures
        ranges(shine(brightness), 24, -200, -23),
        shine(brightness).0 >= 0,
        shine(brightness).0 * two(shine(brightness).1 + 300) <= 16_106_127 * two(273),
{
    reveal(shine);
    lemma_two_values();
    lemma_single(brightness);
    let (b, k): ((int, int), (int, int)) = (single_of(brightness), (16_106_127, -27));
    lemma_product_ranges(b, k, 24);
    let t = product(b, k, 24);
    lemma_two(273);
    if b.0 == 0 {
        assert(0 * two(300) == 0);
        assert(less(single_one(), t) ==> false) by {
            lemma_two(23);
            assert(0 * two(23) == 0);
            assert(0x80_0000 * two(0) == 0x80_0000) by {
                lemma_two(0);
            }
        }
    } else {
        // b is at most one.
        assert(b.0 <= two(-b.1)) by {
            if brightness < 0x3f80_0000 {
                lemma_two_grows(24, -b.1);
            } else {
                assert(b == (0x80_0000int, -23int));
            }
        }
        let n = b.0 * k.0;
        let e = b.1 + k.1;
        let tb = two(-b.1);
        lemma_two(-b.1);
        assert(0 < n <= k.0 * tb) by (nonlinear_arith)
            requires
                n == b.0 * k.0,
                0 < b.0 <= tb,
                k.0 == 16_106_127,
        ;
        assert(n < two(24) * tb);
        lemma_place_at_most(n, e, 24, -27);
        lemma_number_at_most(n, e, 24, k.0, -27);
        lemma_two_adds(-27 - t.1, t.1 + 300);
        let (x, y) = (two(-27 - t.1), two(t.1 + 300));
        assert(t.0 * y <= 16_106_127 * two(273)) by (nonlinear_arith)
            requires
                t.0 <= 16_106_127 * x,
                two(273) == x * y,
                y >= 1,
        ;
        lemma_number_sign(n, e, 24);
        // It is below one, so nothing is cut.
        assert(!less(single_one(), t)) by {
            let o = single_one();
            assert(finer(o, t) == t.1);
            lemma_two(-23 - t.1);
            lemma_two_adds(4, -27 - t.1);
            lemma_two(0);
            assert(t.0 * two(0) == t.0);
            assert(units(o, t.1) == 0x80_0000 * two(-23 - t.1));
        }
    }
}

/// However bright the scene is, the two channels of the scope can be told apart:
/// in some component their colours differ by fifty or more, behind lyrics by
/// twenty-five or more. A scene is at most as bright as one.
pub proof fn law_brightness_keeps_channels_apart(t: VisualTheme, subdued: bool, brightness: u32)
    requires
        brightness <= 0x3f80_0000,
    ensures
        ({
            let left = channel_shade(channels_of(t).0, t, subdued, brightness);
            let right = channel_shade(channels_of(t).1, t, subdued, brightness);
            let least: int = if subdued {
                25
            } else {
                50
            };
            exists|i: int|
                0 <= i < 3 && (#[trigger] left[i] - right[i] >= least || right[i] - left[i]
                    >= least)
        }),
{
    let (l, r) = channels_of(t);
    law_channels_are_distinct(t);
    let (x, y, z) = (l[0] - r[0], l[1] - r[1], l[2] - r[2]);
    assert(x * x + y * y + z * z == dist_sq(l, r));
    assert(x >= 58 || x <= -58 || y >= 58 || y <= -58 || z >= 58 || z <= -58) by (nonlinear_arith)
        requires
            x * x + y * y + z * z >= 10_000,
    ;
    let i: int = if x >= 58 || x <= -58 {
        0
    } else if y >= 58 || y <= -58 {
        1
    } else {
        2
    };
    let (hi, lo) = if l[i] >= r[i] {
        (l[i], r[i])
    } else {
        (r[i], l[i])
    };
    let left = channel_shade(l, t, subdued, brightness);
    let right = channel_shade(r, t, subdued, brightness);
    if subdued {
        let c = ceiling_of(t)[i] as int;
        lemma_mixes_stay_apart(hi as int, lo as int, c, 55, 100);
        law_blend_lies_between(hi as int, c, 55, 100);
        law_blend_lies_between(lo as int, c, 55, 100);
    } else {
        lemma_shine(brightness);
        lemma_shining_stays_apart(hi, lo, shine(brightness));
    }
    assert(left[i] - right[i] >= 25 || right[i] - left[i] >= 25);
}

proof fn lemma_shining_stays_apart(hi: u8, lo: u8, t: (int, int))
    requires
        ranges(t, 24, -200, -23),
        t.0 >= 0,
        t.0 * two(t.1 + 300) <= 16_106_127 * two(273),
        hi >= lo + 58,
    ensures
        mixed_by(hi, 255, t) >= mixed_by(lo, 255, t) + 50,
{
    lemma_two_values();
    lemma_two_adds(273, 27);
    lemma_two_adds(273, 12);
    lemma_two_27();
    let (u, k, q) = (two(273), two(300), two(285));
    let v = t.0 * two(t.1 + 300);
    lemma_mixed_by_near(hi, 255, t);
    lemma_mixed_by_near(lo, 255, t);
    let (a, b) = (mixed_by(hi, 255, t), mixed_by(lo, 255, t));
    let (x, y) = (hi * k + (255 - hi) * v, lo * k + (255 - lo) * v);
    assert(x - y >= 58 * (k - v)) by (nonlinear_arith)
        requires
            x == hi * k + (255 - hi) * v,
            y == lo * k + (255 - lo) * v,
            hi >= lo + 58,
            v <= k,
    ;
    assert(a - b >= 50) by (nonlinear_arith)
        requires
            a * k - x >= -16389 * q,
            b * k - y <= 16389 * q,
            x - y >= 58 * (k - v),
            k == 134_217_728 * u,
            q == 4096 * u,
            v <= 16_106_127 * u,
            u >= 1,
    ;
}

proof fn lemma_two_27()
    ensures
        two(27) == 134_217_728,
        two(12) == 4096,
        two(273) >= 1,
{
    lemma_two_values();
    lemma_two(24);
    lemma_two(25);
    lemma_two(26);
    lemma_two_adds(8, 4);
    lemma_two(273);
}

/// A bar fills its rows from the base: a row rises only above full ones.
pub proof fn law_bars_grow_from_the_base(steps: int, off: int)
    requires
        0 <= steps,
        0 <= off,
    ensures
        level_of(steps, off + 1) > 0 ==> level_of(steps, off) == 8,
        level_of(steps, off + 1) <= level_of(steps, off),
{
}

/// The columns of an area share the twenty-four bars evenly, in their order.
pub proof fn law_columns_share_the_bars(col: u16, width: u16, bar: usize)
    requires
        col < width,
        call_ensures(bar_index, (col, width), bar),
    ensures
        bar * width <= col * 24 < (bar + 1) * width,
{
    let q = col * 24 / (width as int);
    assert(q * width <= col * 24 < (q + 1) * width) by (nonlinear_arith)
        requires
            q == col * 24 / (width as int),
            0 < width,
            0 <= col,
    ;
}

/// A row of a bar is full, empty, or holds what the full rows below it leave of
/// the height; its symbol fills as many eighths of the cell, in a bar of one row
/// seven at most.
pub proof fn law_bars_show_their_height(
    steps: usize,
    off: u16,
    level: usize,
    tall: char,
    low: char,
    rows: u16,
)
    requires
        rows > 1,
        call_ensures(bar_level, (steps, off), level),
        call_ensures(bar_glyph, (rows, level), tall),
        call_ensures(bar_glyph, (1, level), low),
    ensures
        steps <= 8 * off ==> level == 0,
        steps >= 8 * off + 8 ==> level == 8,
        8 * off <= steps <= 8 * off + 8 ==> 8 * off + level == steps,
        level == 0 ==> tall == ' ' && low == ' ',
        level > 0 ==> tall as int == 0x2580 + level,
        0 < level < 8 ==> low == tall,
        level == 8 ==> low as int == 0x2587,
{
}

/// A song jumped if it went back or on by more than two seconds; before its first
/// position it did not.
pub proof fn law_jumps_are_noticed(last: u64, position: u64, jumped: bool, first: bool)
    requires
        call_ensures(position_jumped, (Some(last), position), jumped),
        call_ensures(position_jumped, (None::<u64>, position), first),
    ensures
        !first,
        jumped <==> !(0 <= position - last <= 2_000_000_000),
{
}

/// Points are two columns apart, three in an area of more than a hundred columns,
/// and four more in a silent scene.
pub proof fn law_points_are_spaced(w: usize, loud: usize, silent: usize)
    requires
        call_ensures(scene_min_dist, (w, false), loud),
        call_ensures(scene_min_dist, (w, true), silent),
    ensures
        loud == if w > 100 {
            3int
        } else {
            2int
        },
        silent == loud + 4,
{
}

/// A column shows the part of the waveform that lies above it, one bucket at
/// least, and its trace is taken from the middle of that part.
pub proof fn law_columns_show_their_part(w: usize, col: usize, range: (usize, usize), middle: usize)
    requires
        col < w,
        w * 128 <= usize::MAX,
        call_ensures(column_bucket_range, (w, col), range),
        call_ensures(trace_bucket, (w, col), middle),
    ensures
        range.0 * w <= col * 128 < (range.0 + 1) * w,
        range.1 == range.0 + 1 || range.1 * w <= (col + 1) * 128 < (range.1 + 1) * w,
        range.0 <= middle < range.1,
        0 <= (range.1 - 1 - middle) - (middle - range.0) <= 1,
{
    let (a, b) = (col * 128, (col + 1) * 128);
    let (p, q) = (a / (w as int), b / (w as int));
    assert(p * w <= a < (p + 1) * w) by (nonlinear_arith)
        requires
            p == a / (w as int),
            0 < w,
            0 <= a,
    ;
    assert(q * w <= b < (q + 1) * w) by (nonlinear_arith)
        requires
            q == b / (w as int),
            0 < w,
            0 <= b,
    ;
}

/// The colours of a scope: cells of both channels are half of each, links lie two
/// fifths of the way from the panel to their channel, and points of each kind
/// have the colour of their kind.
pub proof fn law_scope_colours(
    theme: VisualTheme,
    subdued: bool,
    brightness: u32,
    panel: [u8; 3],
    c: TraceColors,
    i: int,
    kind: PointKind,
    ink: [u8; 3],
)
    requires
        0 <= i < 3,
        call_ensures(panel_color, (&theme, subdued), panel),
        call_ensures(trace_colors, (&theme, subdued, brightness), c),
        call_ensures(TraceColors::color, (&c, kind), ink),
    ensures
        -1 <= 2 * c.both@[i] - (c.left@[i] + c.right@[i]) <= 1,
        -50 <= 100 * c.left_link@[i] - (40 * c.left@[i] + 60 * panel@[i]) <= 50,
        -50 <= 100 * c.right_link@[i] - (40 * c.right@[i] + 60 * panel@[i]) <= 50,
        !subdued ==> panel@ == theme.background@ && c.accent@ == theme.accent@,
        kind is Left ==> ink == c.left,
        kind is Right ==> ink == c.right,
        kind is LeftLink ==> ink == c.left_link,
        kind is RightLink ==> ink == c.right_link,
        kind is Both ==> ink == c.both,
        kind is LeftAccent || kind is RightAccent ==> ink == c.accent,
{
    crate::contrast::law_blend_is_nearest(c.left@[i] as int, c.right@[i] as int, 50, 100);
    crate::contrast::law_blend_is_nearest(c.left@[i] as int, panel@[i] as int, 60, 100);
    crate::contrast::law_blend_is_nearest(c.right@[i] as int, panel@[i] as int, 60, 100);
    law_blend_lies_between(c.left@[i] as int, c.right@[i] as int, 50, 100);
    law_blend_lies_between(c.left@[i] as int, panel@[i] as int, 60, 100);
    law_blend_lies_between(c.right@[i] as int, panel@[i] as int, 60, 100);
}

/// The four quarters of intensity have four colours: that of the terminal, and the
/// three of the theme from the third to the first.
pub proof fn law_intensity_has_colours(
    theme: VisualTheme,
    none: Option<[u8; 3]>,
    low: Option<[u8; 3]>,
    middle: Option<[u8; 3]>,
    high: Option<[u8; 3]>,
    quarter: usize,
)
    requires
        quarter >= 3,
        call_ensures(bar_color, (0, &theme), none),
        call_ensures(bar_color, (1, &theme), low),
        call_ensures(bar_color, (2, &theme), middle),
        call_ensures(bar_color, (quarter, &theme), high),
    ensures
        none is None,
        low == Some(theme.accent),
        middle == Some(theme.secondary),
        high == Some(theme.primary),
{
}

} // verus!
