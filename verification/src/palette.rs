//! The colours of a scene, derived from the cover of the song.

use vstd::prelude::*;

use crate::contrast::{
    blend, blend_by, ensure_contrast, relative_luminance, shade, BLACK, WHITE,
};
#[allow(unused_imports)]
use crate::contrast::{
    blended, blended_by, contrasting, far_end, law_contrast_is_reached, law_mixed_by_ends, luminance,
    mixed, reaches, DARK_LUMINANCE,
};
use crate::cover::{rgb_dist_sq, CoverColorMatrix};
#[allow(unused_imports)]
use crate::cover::{dist_sq, dominant_colors, law_dominants_suffice, synthetic};
use crate::float::Float;
#[allow(unused_imports)]
use crate::float::{number, ranges, share_of_bits, single_one};
#[allow(unused_imports)]
use crate::linear::LINEAR;
use crate::tone::tone_down;
#[allow(unused_imports)]
use crate::tone::tamed;

verus! {

/// The roles that colours play in a scene.
#[derive(Debug, Clone, Copy, PartialEq, Eq)]
pub struct VisualTheme {
    /// The most dominant colour.
    pub primary: [u8; 3],
    /// The second dominant colour.
    pub secondary: [u8; 3],
    /// The third dominant colour.
    pub accent: [u8; 3],
    /// Background of the scene.
    pub background: [u8; 3],
    /// Surface of panels.
    pub surface: [u8; 3],
    /// Alternative surface of panels.
    pub surface_alt: [u8; 3],
    /// Borders of panels.
    pub border: [u8; 3],
    /// Titles.
    pub title: [u8; 3],
    /// Background of selected rows.
    pub selection: [u8; 3],
    /// Flashes.
    pub glow: [u8; 3],
}

/// The colours of the two channels of the scope.
#[derive(Debug, Clone, Copy, PartialEq, Eq)]
pub struct ChannelColors {
    pub left: [u8; 3],
    pub right: [u8; 3],
}

/// The colours of the lines of a lyric: sung, being sung, to be sung.
#[derive(Debug, Clone, Copy, PartialEq, Eq)]
pub struct KaraokeColors {
    pub read: [u8; 3],
    pub current: [u8; 3],
    pub unread: [u8; 3],
}

/// Share of the background that is left behind the lyrics, in percent.
pub const KARAOKE_SUBDUED: u32 = 45;

/// Share of the trace that may shine over the background of the lyrics, in
/// percent.
pub const KARAOKE_TRACE_CEILING: u32 = 27;

/// Contrast of the line being sung, in tenths.
pub const KARAOKE_ACTIVE_CONTRAST: u64 = 45;

/// Contrast of the other lines, in tenths.
pub const KARAOKE_DIM_CONTRAST: u64 = 30;

/// Greatest saturation that a dominant colour keeps: 0.72 in single precision, in
/// units of 2^-24.
pub const TAME_MAX_SATURATION: i64 = 12_079_596;

/// Least lightness of a dominant colour: 0.28 in single precision, in units of 2^-25.
pub const TAME_MIN_LIGHTNESS: i64 = 9_395_241;

/// Greatest lightness of a dominant colour: 0.78 in single precision, in units of
/// 2^-24.
pub const TAME_MAX_LIGHTNESS: i64 = 13_086_228;

/// Squared distance that the two channels should keep.
pub const CHANNEL_DISTANCE_SQ: u64 = 10_000;

/// Most steps that move the two channels apart.
pub const CHANNEL_SEPARATION_STEPS: u32 = 8;

/// The roles that follow from the three base colours and the background.
pub open spec fn roles_follow(t: VisualTheme) -> bool {
    &&& t.surface@ == blended(t.background@, t.primary@, 18, 100)
    &&& t.surface_alt@ == blended(t.background@, t.secondary@, 18, 100)
    &&& t.border@ == blended(t.primary@, t.background@, 72, 100)
    &&& t.title == t.primary
    &&& t.selection@ == blended(t.primary@, t.background@, 38, 100)
    &&& t.glow@ == blended(t.primary@, WHITE@, 30, 100)
}

/// The theme of three dominant colours.
pub open spec fn derived(d: ([u8; 3], [u8; 3], [u8; 3]), t: VisualTheme) -> bool {
    &&& t.primary@ == tamed(d.0@)
    &&& t.secondary@ == tamed(d.1@)
    &&& t.accent@ == tamed(d.2@)
    &&& t.background@ == blended(BLACK@, t.primary@, 22, 100)
    &&& roles_follow(t)
}

/// The theme of a song without a cover.
pub open spec fn fallback_theme() -> VisualTheme {
    VisualTheme {
        primary: [226, 120, 224],
        secondary: [96, 168, 252],
        accent: [250, 176, 96],
        background: [20, 14, 26],
        surface: [57, 33, 62],
        surface_alt: [34, 42, 67],
        border: [78, 44, 81],
        title: [226, 120, 224],
        selection: [148, 80, 149],
        glow: [235, 161, 233],
    }
}

/// A colour at the share `t` of the way from `a` to `b`; black where the share is no
/// number.
pub open spec fn shared(a: Seq<u8>, b: Seq<u8>, t: Option<(int, int)>) -> Seq<u8> {
    match t {
        Some(t) => blended_by(a, b, t),
        None => BLACK@,
    }
}

/// Every role of `r` is the mix of the two themes' roles.
pub open spec fn theme_mixed(
    a: VisualTheme,
    b: VisualTheme,
    t: Option<(int, int)>,
    r: VisualTheme,
) -> bool {
    &&& r.primary@ == shared(a.primary@, b.primary@, t)
    &&& r.secondary@ == shared(a.secondary@, b.secondary@, t)
    &&& r.accent@ == shared(a.accent@, b.accent@, t)
    &&& r.background@ == shared(a.background@, b.background@, t)
    &&& r.surface@ == shared(a.surface@, b.surface@, t)
    &&& r.surface_alt@ == shared(a.surface_alt@, b.surface_alt@, t)
    &&& r.border@ == shared(a.border@, b.border@, t)
    &&& r.title@ == shared(a.title@, b.title@, t)
    &&& r.selection@ == shared(a.selection@, b.selection@, t)
    &&& r.glow@ == shared(a.glow@, b.glow@, t)
}

fn share(a: [u8; 3], b: [u8; 3], t: Option<Float>) -> (r: [u8; 3])
    requires
        t is Some ==> ranges(t->0@, 24, -200, -20),
    ensures
        r@ == shared(
            a@,
            b@,
            match t {
                Some(t) => Some(t@),
                None => None,
            },
        ),
{
    match t {
        Some(t) => blend_by(a, b, t),
        None => BLACK,
    }
}

/// Two colours moved apart, the first towards white and the second towards
/// black, until they keep their distance or `steps` steps were made.
pub open spec fn moved_apart(l: Seq<u8>, r: Seq<u8>, steps: nat) -> (Seq<u8>, Seq<u8>)
    decreases steps,
{
    if dist_sq(l, r) >= CHANNEL_DISTANCE_SQ || steps == 0 {
        (l, r)
    } else {
        moved_apart(
            blended(l, WHITE@, 6, 100),
            blended(r, BLACK@, 6, 100),
            (steps - 1) as nat,
        )
    }
}

/// The colours of the two channels.
pub open spec fn channels_of(t: VisualTheme) -> (Seq<u8>, Seq<u8>) {
    moved_apart(
        blended(t.accent@, t.primary@, 55, 100),
        blended(t.secondary@, t.primary@, 30, 100),
        8,
    )
}

/// The brighter of two colours, the first of equals.
pub open spec fn brighter(a: Seq<u8>, b: Seq<u8>) -> Seq<u8> {
    if luminance(b) > luminance(a) {
        b
    } else {
        a
    }
}

/// The brightest background that the lyrics may meet.
pub open spec fn ceiling_of(t: VisualTheme) -> Seq<u8> {
    let (l, r) = channels_of(t);
    blended(
        blended(BLACK@, t.background@, 45, 100),
        brighter(brighter(t.accent@, l), r),
        27,
        100,
    )
}

impl VisualTheme {
    /// The theme of a song without a cover.
    pub fn fallback() -> (r: VisualTheme)
        ensures
            r == fallback_theme(),
    {
        VisualTheme {
            primary: [226, 120, 224],
            secondary: [96, 168, 252],
            accent: [250, 176, 96],
            background: [20, 14, 26],
            surface: [57, 33, 62],
            surface_alt: [34, 42, 67],
            border: [78, 44, 81],
            title: [226, 120, 224],
            selection: [148, 80, 149],
            glow: [235, 161, 233],
        }
    }

    /// The theme of three dominant colours, or the one without a cover.
    pub fn from_cover(cover: Option<[[u8; 3]; 3]>) -> (r: VisualTheme)
        ensures
            cover is None ==> r == fallback_theme(),
            cover is Some ==> exists|m: CoverColorMatrix|
                synthetic(cover->0, m) && derived(#[trigger] dominant_colors(m), r),
    {
        match cover {
            None => VisualTheme::fallback(),
            Some(d) => {
                let m = CoverColorMatrix::from_dominants(d);
                let r = VisualTheme::from_matrix(&m);
                assert(synthetic(d, m) && derived(dominant_colors(m), r));
                r
            },
        }
    }

    /// The theme of a cover.
    pub fn from_matrix(matrix: &CoverColorMatrix) -> (r: VisualTheme)
        ensures
            derived(dominant_colors(*matrix), r),
    {
        let d = matrix.dominants();
        let primary = VisualTheme::tame(d[0]);
        let secondary = VisualTheme::tame(d[1]);
        let accent = VisualTheme::tame(d[2]);
        let background = shade(primary, 22, 100);
        VisualTheme {
            primary,
            secondary,
            accent,
            background,
            surface: blend(background, primary, 18, 100),
            surface_alt: blend(background, secondary, 18, 100),
            border: blend(primary, background, 72, 100),
            title: primary,
            selection: blend(primary, background, 38, 100),
            glow: blend(primary, WHITE, 30, 100),
        }
    }

    /// Tones a dominant colour down without changing its hue.
    pub fn tame(c: [u8; 3]) -> (r: [u8; 3])
        ensures
            r@ == tamed(c@),
    {
        tone_down(c)
    }

    /// The theme at the share `t` of the way to another one, all roles together. The
    /// share is the bit pattern of a single-precision number, and is held between
    /// zero and one.
    pub fn mix(&self, other: &VisualTheme, t: u32) -> (r: VisualTheme)
        ensures
            theme_mixed(*self, *other, share_of_bits(t), r),
    {
        let t = Float::single_share(t);
        VisualTheme {
            primary: share(self.primary, other.primary, t),
            secondary: share(self.secondary, other.secondary, t),
            accent: share(self.accent, other.accent, t),
            background: share(self.background, other.background, t),
            surface: share(self.surface, other.surface, t),
            surface_alt: share(self.surface_alt, other.surface_alt, t),
            border: share(self.border, other.border, t),
            title: share(self.title, other.title, t),
            selection: share(self.selection, other.selection, t),
            glow: share(self.glow, other.glow, t),
        }
    }

    /// The subdued background behind the lyrics.
    pub fn karaoke_subdued_bg(&self) -> (r: [u8; 3])
        ensures
            r@ == blended(BLACK@, self.background@, KARAOKE_SUBDUED as int, 100),
    {
        shade(self.background, KARAOKE_SUBDUED, 100)
    }

    /// The colours of the two channels of the scope.
    pub fn channel_colors(&self) -> (r: ChannelColors)
        ensures
            (r.left@, r.right@) == channels_of(*self),
    {
        let mut left = blend(self.accent, self.primary, 55, 100);
        let mut right = blend(self.secondary, self.primary, 30, 100);
        let mut steps: u32 = 0;
        while steps < CHANNEL_SEPARATION_STEPS && rgb_dist_sq(left, right) < CHANNEL_DISTANCE_SQ
            invariant
                0 <= steps <= 8,
                channels_of(*self) == moved_apart(left@, right@, (8 - steps) as nat),
            decreases 8 - steps,
        {
            left = blend(left, WHITE, 6, 100);
            right = blend(right, BLACK, 6, 100);
            steps = steps + 1;
        }
        ChannelColors { left, right }
    }

    /// The brightest background that the lyrics may meet.
    pub fn karaoke_bg_ceiling(&self) -> (r: [u8; 3])
        ensures
            r@ == ceiling_of(*self),
    {
        let base = self.karaoke_subdued_bg();
        let channels = self.channel_colors();
        let mut target = self.accent;
        if relative_luminance(channels.left) > relative_luminance(target) {
            target = channels.left;
        }
        if relative_luminance(channels.right) > relative_luminance(target) {
            target = channels.right;
        }
        blend(base, target, KARAOKE_TRACE_CEILING, 100)
    }

    /// The colours of the lyrics, each with enough contrast to be read.
    pub fn karaoke_colors(&self) -> (r: KaraokeColors)
        ensures
            r.read@ == contrasting(self.secondary@, ceiling_of(*self), 30, 10),
            r.current@ == contrasting(self.primary@, ceiling_of(*self), 45, 10),
            r.unread@ == contrasting(self.accent@, ceiling_of(*self), 30, 10),
    {
        let bg = self.karaoke_bg_ceiling();
        KaraokeColors {
            read: ensure_contrast(self.secondary, bg, KARAOKE_DIM_CONTRAST, 10),
            current: ensure_contrast(self.primary, bg, KARAOKE_ACTIVE_CONTRAST, 10),
            unread: ensure_contrast(self.accent, bg, KARAOKE_DIM_CONTRAST, 10),
        }
    }
}

/// One step apart.
#[verifier::opaque]
spec fn step_apart(p: (Seq<u8>, Seq<u8>)) -> (Seq<u8>, Seq<u8>) {
    (blended(p.0, WHITE@, 6, 100), blended(p.1, BLACK@, 6, 100))
}

/// Two colours after `n` steps apart.
spec fn stepped_apart(p: (Seq<u8>, Seq<u8>), n: nat) -> (Seq<u8>, Seq<u8>)
    decreases n,
{
    if n == 0 {
        p
    } else {
        stepped_apart(step_apart(p), (n - 1) as nat)
    }
}

proof fn lemma_moved_far_or_all_steps(l: Seq<u8>, r: Seq<u8>, steps: nat)
    ensures
        ({
            let m = moved_apart(l, r, steps);
            dist_sq(m.0, m.1) >= CHANNEL_DISTANCE_SQ || m == stepped_apart((l, r), steps)
        }),
    decreases steps,
{
    reveal(step_apart);
    if dist_sq(l, r) < CHANNEL_DISTANCE_SQ && steps > 0 {
        let (l1, r1) = step_apart((l, r));
        lemma_moved_far_or_all_steps(l1, r1, (steps - 1) as nat);
    }
}

proof fn lemma_channel_moves(p: (Seq<u8>, Seq<u8>), i: int)
    requires
        p.0.len() == 3,
        p.1.len() == 3,
        0 <= i < 3,
    ensures
        step_apart(p).0.len() == 3,
        step_apart(p).1.len() == 3,
        50 * (step_apart(p).0[i] - step_apart(p).1[i]) >= 47 * (p.0[i] - p.1[i]) + 715,
{
    reveal(step_apart);
    let (l, r) = (p.0[i] as int, p.1[i] as int);
    assert(mixed(l, 255, 6, 100) == (2 * (100 * l + (255 - l) * 6) + 100) / 200);
    assert(mixed(r, 0, 6, 100) == (2 * (100 * r + (0 - r) * 6) + 100) / 200);
}

proof fn lemma_eight_moves(p: (Seq<u8>, Seq<u8>), i: int)
    requires
        p.0.len() == 3,
        p.1.len() == 3,
        0 <= i < 3,
        -100 < p.0[i] - p.1[i] < 100,
    ensures
        ({
            let m = stepped_apart(p, 8);
            10000 * (m.0[i] - m.1[i]) >= 6096 * (p.0[i] - p.1[i]) + 930490
        }),
{
    reveal_with_fuel(stepped_apart, 9);
    let p1 = step_apart(p);
    let p2 = step_apart(p1);
    let p3 = step_apart(p2);
    let p4 = step_apart(p3);
    let p5 = step_apart(p4);
    let p6 = step_apart(p5);
    let p7 = step_apart(p6);
    lemma_channel_moves(p, i);
    lemma_channel_moves(p1, i);
    lemma_channel_moves(p2, i);
    lemma_channel_moves(p3, i);
    lemma_channel_moves(p4, i);
    lemma_channel_moves(p5, i);
    lemma_channel_moves(p6, i);
    lemma_channel_moves(p7, i);
}

proof fn lemma_far_after_eight(x: int, y: int, z: int, u: int, v: int, w: int)
    requires
        x * x + y * y + z * z < 10_000,
        -100 < x < 100,
        -100 < y < 100,
        -100 < z < 100,
        10000 * u >= 6096 * x + 930490,
        10000 * v >= 6096 * y + 930490,
        10000 * w >= 6096 * z + 930490,
    ensures
        u * u + v * v + w * w >= 10_000,
{
    let t = x + y + z;
    let s = x * x + y * y + z * z;
    assert(t * t <= 3 * s) by (nonlinear_arith)
        requires
            t == x + y + z,
            s == x * x + y * y + z * z,
    {
        assert((x - y) * (x - y) >= 0);
        assert((y - z) * (y - z) >= 0);
        assert((x - z) * (x - z) >= 0);
    }
    assert(t >= -173) by (nonlinear_arith)
        requires
            t * t <= 3 * s,
            s < 10_000,
    ;
    let (p, q, r) = (6096 * x + 930490, 6096 * y + 930490, 6096 * z + 930490);
    assert(p * p + q * q + r * r == 37_161_216 * s + 11_344_534_080 * t + 3 * 930490 * 930490)
        by (nonlinear_arith)
        requires
            p == 6096 * x + 930490,
            q == 6096 * y + 930490,
            r == 6096 * z + 930490,
            t == x + y + z,
            s == x * x + y * y + z * z,
    ;
    assert(3 * (37_161_216 * s) + 3 * (11_344_534_080 * t) + 9 * 930490 * 930490
        >= 3_000_000_000_000) by (nonlinear_arith)
        requires
            3 * s >= t * t,
            t >= -173,
            t <= 300,
    ;
    assert(100_000_000 * (u * u) >= p * p) by (nonlinear_arith)
        requires
            10000 * u >= p,
            p >= 0,
    ;
    assert(100_000_000 * (v * v) >= q * q) by (nonlinear_arith)
        requires
            10000 * v >= q,
            q >= 0,
    ;
    assert(100_000_000 * (w * w) >= r * r) by (nonlinear_arith)
        requires
            10000 * w >= r,
            r >= 0,
    ;
}

/// The colours of the two channels keep their distance, whatever the cover.
pub proof fn law_channels_are_distinct(t: VisualTheme)
    ensures
        dist_sq(channels_of(t).0, channels_of(t).1) >= CHANNEL_DISTANCE_SQ,
{
    let l = blended(t.accent@, t.primary@, 55, 100);
    let r = blended(t.secondary@, t.primary@, 30, 100);
    lemma_moved_far_or_all_steps(l, r, 8);
    if dist_sq(l, r) < CHANNEL_DISTANCE_SQ {
        let (x, y, z) = (l[0] - r[0], l[1] - r[1], l[2] - r[2]);
        assert(x * x + y * y + z * z == dist_sq(l, r));
        assert(-100 < x < 100 && -100 < y < 100 && -100 < z < 100) by (nonlinear_arith)
            requires
                x * x + y * y + z * z < 10_000,
        ;
        lemma_eight_moves((l, r), 0);
        lemma_eight_moves((l, r), 1);
        lemma_eight_moves((l, r), 2);
        let m = stepped_apart((l, r), 8);
        lemma_far_after_eight(
            x,
            y,
            z,
            m.0[0] - m.1[0],
            m.0[1] - m.1[1],
            m.0[2] - m.1[2],
        );
    }
}

/// The lyrics can always be read: against the brightest background that they
/// may meet, the line being sung has a contrast of at least 4.5 and the others
/// of at least 3.
pub proof fn law_lyrics_are_legible(t: VisualTheme)
    ensures
        reaches(contrasting(t.primary@, ceiling_of(t), 45, 10), ceiling_of(t), 45, 10),
        reaches(contrasting(t.secondary@, ceiling_of(t), 30, 10), ceiling_of(t), 30, 10),
        reaches(contrasting(t.accent@, ceiling_of(t), 30, 10), ceiling_of(t), 30, 10),
{
    law_contrast_is_reached(t.primary@, ceiling_of(t), 45, 10);
    law_contrast_is_reached(t.secondary@, ceiling_of(t), 30, 10);
    law_contrast_is_reached(t.accent@, ceiling_of(t), 30, 10);
}

/// There is one way from a cover to its theme: the theme of a matrix is that of
/// its three dominant colours.
pub proof fn law_palette_has_one_source(
    m: CoverColorMatrix,
    d: [[u8; 3]; 3],
    whole: VisualTheme,
    kept: VisualTheme,
)
    requires
        (d@[0], d@[1], d@[2]) == dominant_colors(m),
        derived(dominant_colors(m), whole),
        exists|s: CoverColorMatrix| synthetic(d, s) && derived(#[trigger] dominant_colors(s), kept),
    ensures
        whole == kept,
{
    let s = choose|s: CoverColorMatrix|
        synthetic(d, s) && derived(#[trigger] dominant_colors(s), kept);
    law_dominants_suffice(m, d, s);
    assert(whole.primary =~= kept.primary);
    assert(whole.secondary =~= kept.secondary);
    assert(whole.accent =~= kept.accent);
    assert(whole.background =~= kept.background);
    assert(whole.surface =~= kept.surface);
    assert(whole.surface_alt =~= kept.surface_alt);
    assert(whole.border =~= kept.border);
    assert(whole.selection =~= kept.selection);
    assert(whole.glow =~= kept.glow);
}

/// The background of a derived theme is a darker version of its first colour.
pub proof fn law_background_is_darker(d: ([u8; 3], [u8; 3], [u8; 3]), t: VisualTheme, i: int)
    requires
        derived(d, t),
        0 <= i < 3,
    ensures
        t.background@[i] <= t.primary@[i],
        t.primary@[i] > 0 ==> t.background@[i] < t.primary@[i],
{
    assert(mixed(0, t.primary@[i] as int, 22, 100) == (2 * (0 + t.primary@[i] * 22) + 100) / 200);
}

proof fn lemma_dim_linear(k: int)
    requires
        0 <= k <= 87,
    ensures
        LINEAR@[k] <= 150_000_000_000_000,
{
    assert(forall|i: int| 0 <= i <= 87 ==> #[trigger] LINEAR@[i] <= 150_000_000_000_000);
}

proof fn lemma_ceiling_channel(p: u8, y: u8)
    ensures
        ({
            let b = mixed(0, p as int, 22, 100);
            let x = mixed(0, b, 45, 100);
            &&& 0 <= b <= 56
            &&& 0 <= x <= 25
            &&& 0 <= mixed(x, y as int, 27, 100) <= 87
        }),
{
    let b = mixed(0, p as int, 22, 100);
    assert(b == (2 * (0 + p * 22) + 100) / 200);
    let x = mixed(0, b, 45, 100);
    assert(x == (2 * (0 + b * 45) + 100) / 200);
    assert(mixed(x, y as int, 27, 100) == (2 * (100 * x + (y - x) * 27) + 100) / 200);
}

/// However bright the cover, the scene behind the lyrics is dark, so the lyrics
/// turn towards white.
pub proof fn law_scene_is_dark(d: ([u8; 3], [u8; 3], [u8; 3]), t: VisualTheme)
    requires
        derived(d, t),
    ensures
        luminance(ceiling_of(t)) <= DARK_LUMINANCE,
        far_end(ceiling_of(t)) == WHITE@,
{
    let c = ceiling_of(t);
    let (l, r) = channels_of(t);
    let target = brighter(brighter(t.accent@, l), r);
    lemma_ceiling_channel(t.primary@[0], target[0]);
    lemma_ceiling_channel(t.primary@[1], target[1]);
    lemma_ceiling_channel(t.primary@[2], target[2]);
    assert(c[0] <= 87);
    assert(c[1] <= 87);
    assert(c[2] <= 87);
    lemma_dim_linear(c[0] as int);
    lemma_dim_linear(c[1] as int);
    lemma_dim_linear(c[2] as int);
}

/// The theme without a cover obeys the same derivation of roles.
pub proof fn law_fallback_roles_follow()
    ensures
        roles_follow(fallback_theme()),
{
    let t = fallback_theme();
    assert(t.surface@ =~= blended(t.background@, t.primary@, 18, 100));
    assert(t.surface_alt@ =~= blended(t.background@, t.secondary@, 18, 100));
    assert(t.border@ =~= blended(t.primary@, t.background@, 72, 100));
    assert(t.selection@ =~= blended(t.primary@, t.background@, 38, 100));
    assert(t.glow@ =~= blended(t.primary@, WHITE@, 30, 100));
}

/// A mix that has not begun is the first theme, and one that has ended is the
/// second, in every role.
pub proof fn law_mix_ends_are_exact(a: VisualTheme, b: VisualTheme, r: VisualTheme)
    ensures
        theme_mixed(a, b, share_of_bits(0), r) ==> r.primary@ == a.primary@
            && r.secondary@ == a.secondary@
            && r.accent@ == a.accent@
            && r.background@ == a.background@
            && r.surface@ == a.surface@
            && r.surface_alt@ == a.surface_alt@
            && r.border@ == a.border@
            && r.title@ == a.title@
            && r.selection@ == a.selection@
            && r.glow@ == a.glow@,
        theme_mixed(a, b, share_of_bits(0x3f80_0000), r) ==> r.primary@ == b.primary@
            && r.secondary@ == b.secondary@
            && r.accent@ == b.accent@
            && r.background@ == b.background@
            && r.surface@ == b.surface@
            && r.surface_alt@ == b.surface_alt@
            && r.border@ == b.border@
            && r.title@ == b.title@
            && r.selection@ == b.selection@
            && r.glow@ == b.glow@,
{
    assert(number(0, -149, 24) == (0int, 0int));
    lemma_blend_ends(a.primary, b.primary);
    lemma_blend_ends(a.secondary, b.secondary);
    lemma_blend_ends(a.accent, b.accent);
    lemma_blend_ends(a.background, b.background);
    lemma_blend_ends(a.surface, b.surface);
    lemma_blend_ends(a.surface_alt, b.surface_alt);
    lemma_blend_ends(a.border, b.border);
    lemma_blend_ends(a.title, b.title);
    lemma_blend_ends(a.selection, b.selection);
    lemma_blend_ends(a.glow, b.glow);
}

/// A share below zero counts as zero, and one above one as one.
pub proof fn law_shares_are_held(t: u32)
    ensures
        0x8000_0000 <= t <= 0xff80_0000 ==> share_of_bits(t) == share_of_bits(0),
        0x3f80_0000 <= t <= 0x7f80_0000 ==> share_of_bits(t) == share_of_bits(0x3f80_0000),
{
    assert(number(0, -149, 24) == (0int, 0int));
}

proof fn lemma_blend_ends(a: [u8; 3], b: [u8; 3])
    ensures
        blended_by(a@, b@, (0, 0)) == a@,
        blended_by(a@, b@, single_one()) == b@,
{
    assert forall|i: int| 0 <= i < 3 implies blended_by(a@, b@, (0, 0))[i] == #[trigger] a@[i]
        && blended_by(a@, b@, single_one())[i] == b@[i] by {
        law_mixed_by_ends(a@[i], b@[i]);
    }
    assert(blended_by(a@, b@, (0, 0)) =~= a@);
    assert(blended_by(a@, b@, single_one()) =~= b@);
}

/// A component lies `num` hundredths of the way from one to another, as near as a
/// whole number can.
pub open spec fn hundredths(a: Seq<u8>, b: Seq<u8>, num: int, c: Seq<u8>, i: int) -> bool {
    -50 <= 100 * c[i] - ((100 - num) * a[i] + num * b[i]) <= 50
}

/// The colours of the panels follow from those of the cover: the background is a
/// fifth of the first colour, surfaces lie near the background, the border and
/// the selection between the first colour and the background, flashes on the way
/// from the first colour to white; titles have the first colour.
pub proof fn law_panels_follow_the_cover(m: CoverColorMatrix, t: VisualTheme, i: int)
    requires
        call_ensures(VisualTheme::from_matrix, (&m,), t),
        0 <= i < 3,
    ensures
        hundredths(BLACK@, t.primary@, 22, t.background@, i),
        hundredths(t.background@, t.primary@, 18, t.surface@, i),
        hundredths(t.background@, t.secondary@, 18, t.surface_alt@, i),
        hundredths(t.primary@, t.background@, 72, t.border@, i),
        hundredths(t.primary@, t.background@, 38, t.selection@, i),
        hundredths(t.primary@, WHITE@, 30, t.glow@, i),
        t.title == t.primary,
        t.primary@ == tamed(dominant_colors(m).0@),
        t.secondary@ == tamed(dominant_colors(m).1@),
        t.accent@ == tamed(dominant_colors(m).2@),
{
    lemma_hundredths(BLACK@, t.primary@, 22, i);
    lemma_hundredths(t.background@, t.primary@, 18, i);
    lemma_hundredths(t.background@, t.secondary@, 18, i);
    lemma_hundredths(t.primary@, t.background@, 72, i);
    lemma_hundredths(t.primary@, t.background@, 38, i);
    lemma_hundredths(t.primary@, WHITE@, 30, i);
}

proof fn lemma_hundredths(a: Seq<u8>, b: Seq<u8>, num: int, i: int)
    requires
        0 <= i < 3,
        0 <= num <= 100,
    ensures
        hundredths(a, b, num, blended(a, b, num, 100), i),
{
    crate::contrast::law_blend_is_nearest(a[i] as int, b[i] as int, num, 100);
    crate::contrast::law_blend_lies_between(a[i] as int, b[i] as int, num, 100);
}

/// Behind lyrics the scene is dimmed to less than half of the background.
pub proof fn law_scene_is_dimmed_behind_lyrics(t: VisualTheme, c: [u8; 3], i: int)
    requires
        call_ensures(VisualTheme::karaoke_subdued_bg, (&t,), c),
        0 <= i < 3,
    ensures
        hundredths(BLACK@, t.background@, 45, c@, i),
        c@[i] <= t.background@[i],
{
    lemma_hundredths(BLACK@, t.background@, 45, i);
    crate::contrast::law_blend_lies_between(0, t.background@[i] as int, 45, 100);
}

/// Lyrics over the scene have the three colours of the theme wherever those can be
/// read there, and can always be read: the line that is sung with a contrast of
/// four and a half, the others with three.
pub proof fn law_lyrics_keep_legible_colours(t: VisualTheme, ground: [u8; 3], c: KaraokeColors)
    requires
        call_ensures(VisualTheme::karaoke_bg_ceiling, (&t,), ground),
        call_ensures(VisualTheme::karaoke_colors, (&t,), c),
    ensures
        reaches(c.current@, ground@, 9, 2),
        reaches(c.read@, ground@, 3, 1),
        reaches(c.unread@, ground@, 3, 1),
        reaches(t.primary@, ground@, 9, 2) ==> c.current@ == t.primary@,
        reaches(t.secondary@, ground@, 3, 1) ==> c.read@ == t.secondary@,
        reaches(t.accent@, ground@, 3, 1) ==> c.unread@ == t.accent@,
{
    law_lyrics_are_legible(t);
}

/// The channels have a mixture of the theme's colours where those lie far enough
/// apart: the left one of the third and the first, the right one of the second and
/// the first. They always lie far enough apart in the end.
pub proof fn law_channels_mix_the_theme(t: VisualTheme, c: ChannelColors, i: int)
    requires
        call_ensures(VisualTheme::channel_colors, (&t,), c),
        0 <= i < 3,
    ensures
        dist_sq(c.left@, c.right@) >= 10_000,
        dist_sq(
            blended(t.accent@, t.primary@, 55, 100),
            blended(t.secondary@, t.primary@, 30, 100),
        ) >= 10_000 ==> hundredths(t.accent@, t.primary@, 55, c.left@, i) && hundredths(
            t.secondary@,
            t.primary@,
            30,
            c.right@,
            i,
        ),
{
    law_channels_are_distinct(t);
    lemma_hundredths(t.accent@, t.primary@, 55, i);
    lemma_hundredths(t.secondary@, t.primary@, 30, i);
}

/// The ground that lyrics are read on is the dimmed background, about a quarter of
/// the way to the brightest of the third colour and the two channels.
pub proof fn law_ground_of_the_lyrics(
    t: VisualTheme,
    dimmed: [u8; 3],
    c: ChannelColors,
    ground: [u8; 3],
    i: int,
) -> (brightest: Seq<u8>)
    requires
        call_ensures(VisualTheme::karaoke_subdued_bg, (&t,), dimmed),
        call_ensures(VisualTheme::channel_colors, (&t,), c),
        call_ensures(VisualTheme::karaoke_bg_ceiling, (&t,), ground),
        0 <= i < 3,
    ensures
        brightest == t.accent@ || brightest == c.left@ || brightest == c.right@,
        luminance(brightest) >= luminance(t.accent@),
        luminance(brightest) >= luminance(c.left@),
        luminance(brightest) >= luminance(c.right@),
        hundredths(dimmed@, brightest, 27, ground@, i),
{
    let b = brighter(brighter(t.accent@, c.left@), c.right@);
    lemma_hundredths(dimmed@, b, 27, i);
    b
}

} // verus!
