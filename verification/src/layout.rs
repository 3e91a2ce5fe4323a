//! Terminal profiles and the adaptive geometry of the screens.
//!
//! The size of the terminal decides how information is arranged, never which
//! information is shown: every profile keeps the same sections and only their
//! sizes change.

use vstd::prelude::*;

verus! {

/// A rectangle of terminal cells.
#[derive(Debug, Clone, Copy, PartialEq, Eq, Structural)]
pub struct Rect {
    pub x: u16,
    pub y: u16,
    pub width: u16,
    pub height: u16,
}

pub open spec fn lesser(a: int, b: int) -> int {
    if a < b {
        a
    } else {
        b
    }
}

pub open spec fn greater(a: int, b: int) -> int {
    if a > b {
        a
    } else {
        b
    }
}

/// `v` brought into the range from `lo` to `hi`.
pub open spec fn clamped(v: int, lo: int, hi: int) -> int {
    if v < lo {
        lo
    } else if v > hi {
        hi
    } else {
        v
    }
}

/// `a - b`, stopping at zero.
pub open spec fn monus(a: int, b: int) -> int {
    if a > b {
        a - b
    } else {
        0
    }
}

impl Rect {
    /// A rectangle, cut where it would leave the addressable cells.
    pub fn new(x: u16, y: u16, width: u16, height: u16) -> (r: Rect)
        ensures
            r.x == x,
            r.y == y,
            r.width == lesser(width as int, u16::MAX - x),
            r.height == lesser(height as int, u16::MAX - y),
            r.wf(),
    {
        let max_width: u16 = u16::MAX - x;
        let max_height: u16 = u16::MAX - y;
        Rect {
            x,
            y,
            width: if width > max_width { max_width } else { width },
            height: if height > max_height { max_height } else { height },
        }
    }

    /// Both edges of the rectangle are addressable.
    pub open spec fn wf(self) -> bool {
        &&& self.x + self.width <= u16::MAX
        &&& self.y + self.height <= u16::MAX
    }

    /// `self` lies inside `outer`.
    pub open spec fn inside(self, outer: Rect) -> bool {
        &&& outer.x <= self.x
        &&& outer.y <= self.y
        &&& self.x + self.width <= outer.x + outer.width
        &&& self.y + self.height <= outer.y + outer.height
    }
}

/// Terminal profile, derived from the area of the screen.
#[derive(Debug, Clone, Copy, PartialEq, Eq, Structural)]
pub enum TerminalProfile {
    /// Roomy terminal: comfortable spacing, large artwork.
    Large,
    /// Medium terminal: gaps shrink, everything stays.
    Medium,
    /// Small terminal: vertical layouts and compact elements.
    Small,
    /// Exceptionally small terminal: maximum compaction.
    Tiny,
}

/// The profile of a screen of `w` columns and `h` rows: each profile asks for a
/// minimum of both.
pub open spec fn profile_of(w: int, h: int) -> TerminalProfile {
    if w >= 100 && h >= 30 {
        TerminalProfile::Large
    } else if w >= 80 && h >= 24 {
        TerminalProfile::Medium
    } else if w >= 60 && h >= 16 {
        TerminalProfile::Small
    } else {
        TerminalProfile::Tiny
    }
}

impl TerminalProfile {
    /// Profile of the whole screen area.
    pub fn from_rect(area: Rect) -> (r: Self)
        ensures
            r == profile_of(area.width as int, area.height as int),
    {
        let w: u16 = area.width;
        let h: u16 = area.height;
        if w >= 100 && h >= 30 {
            TerminalProfile::Large
        } else if w >= 80 && h >= 24 {
            TerminalProfile::Medium
        } else if w >= 60 && h >= 16 {
            TerminalProfile::Small
        } else {
            TerminalProfile::Tiny
        }
    }

    /// Rows of the application shell: `(header, status line)`. The Tiny profile
    /// squeezes the shortcut bar into the title line.
    pub fn shell_heights(self) -> (r: (u16, u16))
        ensures
            r == (if self == TerminalProfile::Tiny { (2u16, 1u16) } else { (3u16, 1u16) }),
    {
        match self {
            TerminalProfile::Large | TerminalProfile::Medium | TerminalProfile::Small => (3, 1),
            TerminalProfile::Tiny => (2, 1),
        }
    }

    /// Height of the recommendations panel before compaction.
    pub fn recs_default(self) -> (r: u16)
        ensures
            r == base_layout(self).recs,
    {
        match self {
            TerminalProfile::Large | TerminalProfile::Medium => 7,
            TerminalProfile::Small => 5,
            TerminalProfile::Tiny => 4,
        }
    }

    /// Range `(min, max)` of the height of the Now Playing card.
    pub fn card_range(self) -> (r: (u16, u16))
        ensures
            r == (base_layout(self).card, cap_layout(self).card),
    {
        match self {
            TerminalProfile::Large => (12, 34),
            TerminalProfile::Medium => (10, 26),
            TerminalProfile::Small => (8, 18),
            TerminalProfile::Tiny => (6, 12),
        }
    }

    /// Heights `(progress, visual, controls)` before compaction.
    pub fn other_floor(self) -> (r: (u16, u16, u16))
        ensures
            r == (base_layout(self).progress, base_layout(self).visual, base_layout(self).controls),
    {
        match self {
            TerminalProfile::Large | TerminalProfile::Medium => (3, 4, 3),
            TerminalProfile::Small => (2, 3, 2),
            TerminalProfile::Tiny => (1, 2, 2),
        }
    }
}

/// Vertical split of the body of the Now Playing screen.
///
/// The five sections are always present. When the terminal is too short they
/// are compacted in order of priority (progress, visual, recommendations,
/// controls, card) and none falls below its smallest height.
#[derive(Debug, Clone, Copy, PartialEq, Eq, Structural)]
pub struct DashboardLayout {
    /// Now Playing card (title, artist, album, duration, source, artwork).
    pub card: u16,
    /// Visualizer band.
    pub visual: u16,
    /// Progress bar.
    pub progress: u16,
    /// Recommendations panel.
    pub recs: u16,
    /// Playback state, queue modes and likes.
    pub controls: u16,
}

/// The split of a profile before it is fitted to the body.
pub open spec fn base_layout(p: TerminalProfile) -> DashboardLayout {
    match p {
        TerminalProfile::Large => DashboardLayout {
            card: 12,
            visual: 4,
            progress: 3,
            recs: 7,
            controls: 3,
        },
        TerminalProfile::Medium => DashboardLayout {
            card: 10,
            visual: 4,
            progress: 3,
            recs: 7,
            controls: 3,
        },
        TerminalProfile::Small => DashboardLayout {
            card: 8,
            visual: 3,
            progress: 2,
            recs: 5,
            controls: 2,
        },
        TerminalProfile::Tiny => DashboardLayout {
            card: 6,
            visual: 2,
            progress: 1,
            recs: 4,
            controls: 2,
        },
    }
}

/// The height up to which each section of a profile grows in its turn.
pub open spec fn cap_layout(p: TerminalProfile) -> DashboardLayout {
    match p {
        TerminalProfile::Large => DashboardLayout {
            card: 34,
            visual: 8,
            progress: 6,
            recs: 10,
            controls: 8,
        },
        TerminalProfile::Medium => DashboardLayout {
            card: 26,
            visual: 6,
            progress: 5,
            recs: 9,
            controls: 6,
        },
        TerminalProfile::Small => DashboardLayout {
            card: 18,
            visual: 4,
            progress: 4,
            recs: 8,
            controls: 4,
        },
        TerminalProfile::Tiny => DashboardLayout {
            card: 12,
            visual: 3,
            progress: 3,
            recs: 6,
            controls: 3,
        },
    }
}

/// The smallest height of each section, in every profile.
pub open spec fn floor_layout() -> DashboardLayout {
    DashboardLayout { card: 3, visual: 1, progress: 1, recs: 3, controls: 1 }
}

pub open spec fn total_of(l: DashboardLayout) -> int {
    l.card + l.visual + l.progress + l.recs + l.controls
}

/// `l` with `rows` rows taken away: each section in turn gives what it can
/// spare, in the order progress, visual, recommendations, controls, card.
pub open spec fn shrunk(l: DashboardLayout, rows: int) -> DashboardLayout {
    let f = floor_layout();
    let progress = lesser(rows, l.progress - f.progress);
    let visual = lesser(rows - progress, l.visual - f.visual);
    let recs = lesser(rows - progress - visual, l.recs - f.recs);
    let controls = lesser(rows - progress - visual - recs, l.controls - f.controls);
    let card = lesser(rows - progress - visual - recs - controls, l.card - f.card);
    DashboardLayout {
        card: (l.card - card) as u16,
        visual: (l.visual - visual) as u16,
        progress: (l.progress - progress) as u16,
        recs: (l.recs - recs) as u16,
        controls: (l.controls - controls) as u16,
    }
}

/// `l` with `rows` more rows: each section in turn takes what it can hold, in
/// the order card, recommendations, controls, visual, progress. What is left when
/// all of them are at their cap goes to the visual, so that no row stays empty.
pub open spec fn grown(l: DashboardLayout, cap: DashboardLayout, rows: int) -> DashboardLayout {
    let card = lesser(rows, cap.card - l.card);
    let recs = lesser(rows - card, cap.recs - l.recs);
    let controls = lesser(rows - card - recs, cap.controls - l.controls);
    let visual = lesser(rows - card - recs - controls, cap.visual - l.visual);
    let progress = lesser(rows - card - recs - controls - visual, cap.progress - l.progress);
    let rest = rows - card - recs - controls - visual - progress;
    DashboardLayout {
        card: (l.card + card) as u16,
        visual: (l.visual + visual + rest) as u16,
        progress: (l.progress + progress) as u16,
        recs: (l.recs + recs) as u16,
        controls: (l.controls + controls) as u16,
    }
}

/// The split of a body of `avail` rows.
pub open spec fn dashboard_split(avail: int, p: TerminalProfile) -> DashboardLayout {
    let base = base_layout(p);
    if total_of(base) > avail {
        shrunk(base, total_of(base) - avail)
    } else {
        grown(base, cap_layout(p), avail - total_of(base))
    }
}

/// How a section asks the screen for its height or width.
#[derive(Debug, Clone, Copy, PartialEq, Eq, Structural)]
pub enum Constraint {
    /// Exactly this many rows.
    Length(u16),
    /// At least this many rows, and whatever is left over.
    Min(u16),
    /// A share of what is left over, by this weight.
    Fill(u16),
}

impl DashboardLayout {
    /// The heights of the five sections from top to bottom.
    pub fn constraints(self) -> (r: [Constraint; 5])
        ensures
            r@ == seq![
                Constraint::Length(self.card),
                Constraint::Length(self.visual),
                Constraint::Length(self.progress),
                Constraint::Length(self.recs),
                Constraint::Length(self.controls),
            ],
    {
        let r = [
            Constraint::Length(self.card),
            Constraint::Length(self.visual),
            Constraint::Length(self.progress),
            Constraint::Length(self.recs),
            Constraint::Length(self.controls),
        ];
        assert(r@ =~= seq![
            Constraint::Length(self.card),
            Constraint::Length(self.visual),
            Constraint::Length(self.progress),
            Constraint::Length(self.recs),
            Constraint::Length(self.controls),
        ]);
        r
    }

    /// Rows of the five sections together.
    pub fn total(self) -> (r: u16)
        requires
            total_of(self) <= u16::MAX,
        ensures
            r == total_of(self),
    {
        self.card + self.visual + self.progress + self.recs + self.controls
    }
}

/// A split with every section between `lo` and `hi`.
pub open spec fn between(lo: DashboardLayout, l: DashboardLayout, hi: DashboardLayout) -> bool {
    &&& lo.card <= l.card <= hi.card
    &&& lo.visual <= l.visual <= hi.visual
    &&& lo.progress <= l.progress <= hi.progress
    &&& lo.recs <= l.recs <= hi.recs
    &&& lo.controls <= l.controls <= hi.controls
}

/// Takes rows away, least essential section first, until the split fits into
/// `avail` rows or no section can give more.
fn compact(base: DashboardLayout, avail: u16) -> (l: DashboardLayout)
    requires
        between(floor_layout(), base, base),
        avail < total_of(base) < 1000,
    ensures
        l == shrunk(base, total_of(base) - avail),
{
    let mut l = base;
    while l.card + l.visual + l.progress + l.recs + l.controls > avail && (l.progress > 1
        || l.visual > 1 || l.recs > 3 || l.controls > 1 || l.card > 3)
        invariant
            between(floor_layout(), l, base),
            avail <= total_of(l) <= total_of(base) < 1000,
            shrunk(l, total_of(l) - avail) == shrunk(base, total_of(base) - avail),
        decreases total_of(l),
    {
        if l.progress > 1 {
            l.progress = l.progress - 1;
        } else if l.visual > 1 {
            l.visual = l.visual - 1;
        } else if l.recs > 3 {
            l.recs = l.recs - 1;
        } else if l.controls > 1 {
            l.controls = l.controls - 1;
        } else {
            l.card = l.card - 1;
        }
    }
    l
}

/// Hands rows out in order of priority until every section is at its cap, and
/// the rest to the visual, until the split fills `avail` rows.
fn expand(base: DashboardLayout, cap: DashboardLayout, avail: u16) -> (l: DashboardLayout)
    requires
        between(base, base, cap),
        total_of(cap) < 1000,
        total_of(base) <= avail,
    ensures
        l == grown(base, cap, avail - total_of(base)),
{
    let mut l = base;
    while l.card + l.visual + l.progress + l.recs + l.controls < avail && (l.card < cap.card
        || l.recs < cap.recs || l.controls < cap.controls || l.visual < cap.visual || l.progress
        < cap.progress)
        invariant
            between(base, l, cap),
            total_of(cap) < 1000,
            total_of(l) <= avail,
            grown(l, cap, avail - total_of(l)) == grown(base, cap, avail - total_of(base)),
        decreases avail - total_of(l),
    {
        if l.card < cap.card {
            l.card = l.card + 1;
        } else if l.recs < cap.recs {
            l.recs = l.recs + 1;
        } else if l.controls < cap.controls {
            l.controls = l.controls + 1;
        } else if l.visual < cap.visual {
            l.visual = l.visual + 1;
        } else {
            l.progress = l.progress + 1;
        }
    }
    let used: u16 = l.card + l.visual + l.progress + l.recs + l.controls;
    if used < avail {
        l.visual = l.visual + (avail - used);
    }
    l
}

/// Splits the body of the Now Playing screen for a profile. The split fills the
/// body exactly, unless the body is lower than the smallest heights together.
pub fn dashboard_layout(body: Rect, profile: TerminalProfile) -> (r: DashboardLayout)
    ensures
        r == dashboard_split(body.height as int, profile),
        body.height >= 9 ==> total_of(r) == body.height,
{
    let avail: u16 = body.height;
    let (card_min, card_max) = profile.card_range();
    let (progress_floor, visual_floor, controls_floor) = profile.other_floor();
    let base = DashboardLayout {
        card: card_min,
        visual: visual_floor,
        progress: progress_floor,
        recs: profile.recs_default(),
        controls: controls_floor,
    };
    if base.total() > avail {
        return compact(base, avail);
    }
    let (recs_cap, controls_cap, visual_cap, progress_cap): (u16, u16, u16, u16) = match profile {
        TerminalProfile::Large => (10, 8, 8, 6),
        TerminalProfile::Medium => (9, 6, 6, 5),
        TerminalProfile::Small => (8, 4, 4, 4),
        TerminalProfile::Tiny => (6, 3, 3, 3),
    };
    let cap = DashboardLayout {
        card: card_max,
        visual: visual_cap,
        progress: progress_cap,
        recs: recs_cap,
        controls: controls_cap,
    };
    expand(base, cap, avail)
}

/// Range of the height of the band above the related list.
pub open spec fn band_range(p: TerminalProfile) -> (int, int) {
    match p {
        TerminalProfile::Large => (6, 18),
        TerminalProfile::Medium => (5, 14),
        TerminalProfile::Small => (4, 10),
        TerminalProfile::Tiny => (3, 8),
    }
}

/// The band takes what seven rows of list leave, within the range of its
/// profile. It leaves three rows where there are as many, but always keeps three
/// itself.
pub open spec fn band_height(body_h: int, p: TerminalProfile) -> int {
    greater(
        lesser(clamped(monus(body_h, 7), band_range(p).0, band_range(p).1), monus(body_h, 3)),
        3,
    )
}

/// Height of the upper band of the Related screen (visualizer or lyrics).
pub fn related_band_height(body_h: u16, profile: TerminalProfile) -> (r: u16)
    ensures
        r == band_height(body_h as int, profile),
        3 <= r <= band_range(profile).1,
        body_h >= 6 ==> r + 3 <= body_h,
{
    let (min, max): (u16, u16) = match profile {
        TerminalProfile::Large => (6, 18),
        TerminalProfile::Medium => (5, 14),
        TerminalProfile::Small => (4, 10),
        TerminalProfile::Tiny => (3, 8),
    };
    let raw: u16 = body_h.saturating_sub(7);
    let band: u16 = if raw < min {
        min
    } else if raw > max {
        max
    } else {
        raw
    };
    let room: u16 = body_h.saturating_sub(3);
    let fitting: u16 = if band < room {
        band
    } else {
        room
    };
    if fitting < 3 {
        3
    } else {
        fitting
    }
}

/// The row of a bordered list in `area` that lies under the mouse.
pub open spec fn hovered_row(mouse: Option<(u16, u16)>, area: Rect) -> Option<int> {
    match mouse {
        Some((_, row)) => if area.y + 1 <= row < lesser(area.y + area.height, u16::MAX as int) - 1 {
            Some(row - (area.y + 1))
        } else {
            None
        },
        None => None,
    }
}

/// Index of the list item under the mouse, for a bordered list that occupies `area`.
pub fn hover_index(mouse: Option<(u16, u16)>, area: Rect) -> (r: Option<usize>)
    requires
        area.y < u16::MAX,
    ensures
        match hovered_row(mouse, area) {
            Some(i) => r is Some && r->0 == i,
            None => r is None,
        },
{
    match mouse {
        Some((_, row)) => {
            let inner_top: u16 = area.y + 1;
            let inner_bottom: u16 = area.y.saturating_add(area.height).saturating_sub(1);
            if row >= inner_top && row < inner_bottom {
                Some((row - inner_top) as usize)
            } else {
                None
            }
        },
        None => None,
    }
}

/// Popup of at most `w` by `h` cells in the middle of `area`, two cells smaller
/// than it. In a small area it is up to 20 by 8 cells, but it never leaves the
/// area.
pub fn centered(area: Rect, w: u16, h: u16) -> (r: Rect)
    requires
        area.wf(),
    ensures
        r.width == popup_side(w as int, area.width as int, 20),
        r.height == popup_side(h as int, area.height as int, 8),
        r.x == area.x + (area.width - r.width) / 2,
        r.y == area.y + (area.height - r.height) / 2,
        r.width <= area.width,
        r.height <= area.height,
        r.inside(area),
{
    let width: u16 = popup_length(w, area.width, 20);
    let height: u16 = popup_length(h, area.height, 8);
    Rect {
        x: area.x + (area.width - width) / 2,
        y: area.y + (area.height - height) / 2,
        width,
        height,
    }
}

/// Side of a popup: the wished size, two cells short of the area, at least `least`
/// where the area has as many cells.
pub open spec fn popup_side(wish: int, area: int, least: int) -> int {
    lesser(greater(lesser(wish, monus(area, 2)), least), area)
}

fn popup_length(wish: u16, area: u16, least: u16) -> (r: u16)
    ensures
        r == popup_side(wish as int, area as int, least as int),
{
    let room: u16 = area.saturating_sub(2);
    let side: u16 = if wish < room {
        wish
    } else {
        room
    };
    let side: u16 = if side < least {
        least
    } else {
        side
    };
    if side < area {
        side
    } else {
        area
    }
}

/// Input box in the middle of `area`: as wide as the area less four columns,
/// between 20 and 80, and `height` rows high, between 3 and the area.
pub fn focused_rect(area: Rect, height: u16) -> (r: Rect)
    requires
        area.wf(),
        area.height >= 3,
    ensures
        r.width == clamped(area.width - 4, 20, 80),
        r.height == clamped(height as int, 3, area.height as int),
        r.x == area.x + monus(area.width as int, r.width as int) / 2,
        r.y == area.y + (area.height - r.height) / 2,
{
    let room: u16 = area.width.saturating_sub(4);
    let w: u16 = if room < 20 {
        20
    } else if room > 80 {
        80
    } else {
        room
    };
    let h: u16 = if height < 3 {
        3
    } else if height > area.height {
        area.height
    } else {
        height
    };
    Rect {
        x: area.x + area.width.saturating_sub(w) / 2,
        y: area.y + area.height.saturating_sub(h) / 2,
        width: w,
        height: h,
    }
}

/// No section of the Now Playing screen ever disappears, and none but the visual
/// grows beyond the cap of its profile; the visual does so only when all others
/// are at theirs.
pub proof fn law_sections_never_vanish(avail: nat, p: TerminalProfile)
    requires
        avail <= u16::MAX,
    ensures
        ({
            let l = dashboard_split(avail as int, p);
            let cap = cap_layout(p);
            &&& 3 <= l.card <= cap.card
            &&& 1 <= l.visual
            &&& 1 <= l.progress <= cap.progress
            &&& 3 <= l.recs <= cap.recs
            &&& 1 <= l.controls <= cap.controls
            &&& l.visual > cap.visual ==> l == (DashboardLayout { visual: l.visual, ..cap })
        }),
{
}

/// The split fills the body exactly, without a gap, whenever the body has room
/// for the smallest heights; a lower body gets those.
pub proof fn law_split_fills_the_body(avail: nat, p: TerminalProfile)
    requires
        avail <= u16::MAX,
    ensures
        total_of(dashboard_split(avail as int, p)) == greater(
            avail as int,
            total_of(floor_layout()),
        ),
{
}

/// Space goes to the card first, then to the recommendations, then to the
/// controls: a later section grows only when the earlier ones are at their cap.
pub proof fn law_growth_order(avail: nat, p: TerminalProfile)
    requires
        avail <= u16::MAX,
    ensures
        ({
            let l = dashboard_split(avail as int, p);
            let base = base_layout(p);
            let cap = cap_layout(p);
            &&& l.recs > base.recs ==> l.card == cap.card
            &&& l.controls > base.controls ==> l.recs == cap.recs
            &&& l.visual > base.visual ==> l.controls == cap.controls
            &&& l.progress > base.progress ==> l.visual >= cap.visual
        }),
{
}

/// A taller body never shrinks a section.
pub proof fn law_growth_is_monotone(low: nat, high: nat, p: TerminalProfile)
    requires
        low <= high <= u16::MAX,
    ensures
        ({
            let (a, b) = (dashboard_split(low as int, p), dashboard_split(high as int, p));
            &&& a.card <= b.card
            &&& a.visual <= b.visual
            &&& a.progress <= b.progress
            &&& a.recs <= b.recs
            &&& a.controls <= b.controls
        }),
    decreases high - low,
{
    if low < high {
        law_growth_is_monotone(low, (high - 1) as nat, p);
        lemma_one_more_row((high - 1) as nat, p);
    }
}

/// No section of `a` is higher than in `b`.
spec fn fits_under(a: DashboardLayout, b: DashboardLayout) -> bool {
    &&& a.card <= b.card
    &&& a.visual <= b.visual
    &&& a.progress <= b.progress
    &&& a.recs <= b.recs
    &&& a.controls <= b.controls
}

#[verifier::spinoff_prover]
proof fn lemma_one_less_taken(l: DashboardLayout, rows: int)
    requires
        between(floor_layout(), l, l),
        total_of(l) < 1000,
        1 <= rows,
    ensures
        fits_under(shrunk(l, rows), shrunk(l, rows - 1)),
        fits_under(shrunk(l, rows), l),
        shrunk(l, 0) == l,
{
}

#[verifier::spinoff_prover]
proof fn lemma_one_more_given(l: DashboardLayout, cap: DashboardLayout, rows: int)
    requires
        between(l, l, cap),
        total_of(cap) < 1000,
        0 <= rows,
        total_of(l) + rows < u16::MAX,
    ensures
        fits_under(grown(l, cap, rows), grown(l, cap, rows + 1)),
        grown(l, cap, 0) == l,
{
}

#[verifier::spinoff_prover]
proof fn lemma_one_more_row(avail: nat, p: TerminalProfile)
    requires
        avail < u16::MAX,
    ensures
        fits_under(dashboard_split(avail as int, p), dashboard_split(avail as int + 1, p)),
{
    let (base, cap) = (base_layout(p), cap_layout(p));
    assert(between(floor_layout(), base, cap) && total_of(cap) < 1000);
    let total = total_of(base);
    if total > avail {
        lemma_one_less_taken(base, total - avail);
        lemma_one_more_given(base, cap, 0);
    } else {
        lemma_one_more_given(base, cap, avail - total);
    }
}

/// Compaction spares the more essential sections: one loses a row only when
/// every less essential one is already at its smallest height.
pub proof fn law_compaction_order(avail: nat, p: TerminalProfile)
    requires
        avail <= u16::MAX,
    ensures
        ({
            let l = dashboard_split(avail as int, p);
            let base = base_layout(p);
            &&& l.visual < base.visual ==> l.progress == 1
            &&& l.recs < base.recs ==> l.visual == 1
            &&& l.controls < base.controls ==> l.recs == 3
            &&& l.card < base.card ==> l.controls == 1
        }),
{
}

/// The band of the Related screen always keeps three rows, never grows beyond the
/// range of its profile, and leaves three rows to the list on every body of six
/// rows or more.
pub proof fn law_band_and_list_keep_room(body_h: nat, p: TerminalProfile)
    ensures
        3 <= band_height(body_h as int, p) <= band_range(p).1 <= 18,
        body_h >= 6 ==> band_height(body_h as int, p) + 3 <= body_h,
{
}

/// The row of a list under the mouse is counted from the row below its upper
/// border; the borders themselves, and what lies outside, are no rows.
pub proof fn law_mouse_points_at_rows(x: u16, row: u16, area: Rect, under: Option<usize>)
    requires
        area.wf(),
        area.y < u16::MAX,
        call_ensures(hover_index, (Some((x, row)), area), under),
    ensures
        under is Some <==> area.y < row && row + 1 < area.y + area.height,
        under is Some ==> area.y + 1 + under->0 == row,
{
}

/// A terminal counts as large from a hundred columns and thirty rows on, as at
/// least medium from eighty and twenty-four, and as tiny below sixty or sixteen;
/// a larger one never counts as less.
pub proof fn law_profiles_follow_the_size(
    area: Rect,
    p: TerminalProfile,
    larger: Rect,
    q: TerminalProfile,
)
    requires
        call_ensures(TerminalProfile::from_rect, (area,), p),
        call_ensures(TerminalProfile::from_rect, (larger,), q),
        area.width <= larger.width,
        area.height <= larger.height,
    ensures
        p is Large <==> area.width >= 100 && area.height >= 30,
        p is Large || p is Medium <==> area.width >= 80 && area.height >= 24,
        p is Tiny <==> area.width < 60 || area.height < 16,
        p is Large ==> q is Large,
        p is Medium ==> q is Large || q is Medium,
        q is Tiny ==> p is Tiny,
{
}

/// The band above a list leaves it seven rows where its own limits allow that,
/// and never shrinks when the screen grows.
pub proof fn law_band_leaves_seven_rows(
    body: u16,
    higher: u16,
    p: TerminalProfile,
    band: u16,
    band_higher: u16,
)
    requires
        call_ensures(related_band_height, (body, p), band),
        call_ensures(related_band_height, (higher, p), band_higher),
        body <= higher,
    ensures
        band <= band_higher,
        band_range(p).0 < band < band_range(p).1 ==> band + 7 == body,
        band == band_range(p).1 ==> band + 7 <= body,
        band < band_range(p).0 ==> band + 3 >= body,
{
}

/// A popup has the size that was asked for if that leaves a margin and is not too
/// small to read, and stands in the middle: the margins on two opposite sides
/// differ by one at most.
pub proof fn law_popups_are_centred(area: Rect, w: u16, h: u16, popup: Rect)
    requires
        area.wf(),
        call_ensures(centered, (area, w, h), popup),
    ensures
        20 <= w && w + 2 <= area.width ==> popup.width == w,
        8 <= h && h + 2 <= area.height ==> popup.height == h,
        popup.inside(area),
        ({
            let (left, right) = (
                popup.x - area.x,
                area.x + area.width - popup.x - popup.width,
            );
            let (above, below) = (
                popup.y - area.y,
                area.y + area.height - popup.y - popup.height,
            );
            left <= right <= left + 1 && above <= below <= above + 1
        }),
{
}

/// A framed text in a wide enough area leaves two columns on each side, up to
/// eighty columns, has the height that was asked for, and stands in the middle.
pub proof fn law_focus_is_centred(area: Rect, height: u16, frame: Rect)
    requires
        area.wf(),
        area.height >= 3,
        area.width >= 24,
        call_ensures(focused_rect, (area, height), frame),
    ensures
        area.width <= 84 ==> frame.width + 4 == area.width,
        area.width >= 84 ==> frame.width == 80,
        3 <= height <= area.height ==> frame.height == height,
        frame.inside(area),
        ({
            let (left, right) = (
                frame.x - area.x,
                area.x + area.width - frame.x - frame.width,
            );
            let (above, below) = (
                frame.y - area.y,
                area.y + area.height - frame.y - frame.height,
            );
            left <= right <= left + 1 && above <= below <= above + 1
        }),
{
}

/// The constraints of the dashboard are its five heights from top to bottom.
pub proof fn law_constraints_are_the_heights(l: DashboardLayout, r: [Constraint; 5], i: int)
    requires
        call_ensures(DashboardLayout::constraints, (l,), r),
        0 <= i < 5,
    ensures
        r@[i] is Length,
        r@[0]->Length_0 == l.card,
        r@[1]->Length_0 == l.visual,
        r@[2]->Length_0 == l.progress,
        r@[3]->Length_0 == l.recs,
        r@[4]->Length_0 == l.controls,
{
}

/// In a body that is high enough every section but the visualizer has its greatest
/// height, and the visualizer has the rest.
pub proof fn law_high_bodies_reach_the_limits(body: Rect, p: TerminalProfile, l: DashboardLayout)
    requires
        call_ensures(dashboard_layout, (body, p), l),
        body.height >= 66,
    ensures
        p is Large ==> l.card == 34 && l.progress == 6 && l.recs == 10 && l.controls == 8,
        p is Medium ==> l.card == 26 && l.progress == 5 && l.recs == 9 && l.controls == 6,
        p is Small ==> l.card == 18 && l.progress == 4 && l.recs == 8 && l.controls == 4,
        p is Tiny ==> l.card == 12 && l.progress == 3 && l.recs == 6 && l.controls == 3,
        l.visual == body.height - l.card - l.progress - l.recs - l.controls,
{
}

/// What grows first is the card: between the least comfortable height and the one
/// with a full card, the other sections keep theirs.
pub proof fn law_card_grows_first(body: Rect, p: TerminalProfile, l: DashboardLayout)
    requires
        call_ensures(dashboard_layout, (body, p), l),
    ensures
        p is Large && 29 <= body.height <= 51 ==> l.visual == 4 && l.progress == 3 && l.recs == 7
            && l.controls == 3 && l.card == body.height - 17,
        p is Medium && 27 <= body.height <= 43 ==> l.visual == 4 && l.progress == 3 && l.recs == 7
            && l.controls == 3 && l.card == body.height - 17,
        p is Small && 20 <= body.height <= 30 ==> l.visual == 3 && l.progress == 2 && l.recs == 5
            && l.controls == 2 && l.card == body.height - 12,
        p is Tiny && 15 <= body.height <= 21 ==> l.visual == 2 && l.progress == 1 && l.recs == 4
            && l.controls == 2 && l.card == body.height - 9,
{
}

/// The band is never higher than its profile allows, and reaches that height in a
/// body with seven more rows.
pub proof fn law_band_limits(body: u16, p: TerminalProfile, band: u16)
    requires
        call_ensures(related_band_height, (body, p), band),
    ensures
        p is Large && body >= 25 ==> band == 18,
        p is Medium && body >= 21 ==> band == 14,
        p is Small && body >= 17 ==> band == 10,
        p is Tiny && body >= 15 ==> band == 8,
        p is Large && 9 <= body <= 13 ==> band == 6,
        p is Medium && 8 <= body <= 12 ==> band == 5,
        p is Small && 7 <= body <= 11 ==> band == 4,
        p is Tiny && body <= 10 ==> band == 3,
{
}

/// A rectangle that fits into the coordinates is made as it was asked for.
pub proof fn law_rectangles_are_kept(x: u16, y: u16, w: u16, h: u16, r: Rect)
    requires
        call_ensures(Rect::new, (x, y, w, h), r),
    ensures
        r.x == x && r.y == y,
        x + w <= u16::MAX ==> r.width == w,
        y + h <= u16::MAX ==> r.height == h,
        x + w > u16::MAX ==> r.x + r.width == u16::MAX,
        y + h > u16::MAX ==> r.y + r.height == u16::MAX,
{
}

} // verus!
