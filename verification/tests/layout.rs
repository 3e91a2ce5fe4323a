use tunefold::areas::{
    dashboard_areas, help_areas, related_areas, search_areas, shell_areas,
};
use tunefold::layout::{
    centered, dashboard_layout, focused_rect, hover_index, related_band_height, Rect,
    TerminalProfile,
};

fn prof(w: u16, h: u16) -> TerminalProfile {
    TerminalProfile::from_rect(Rect::new(0, 0, w, h))
}

#[test]
fn thresholds_map_to_profiles() {
    assert_eq!(prof(120, 40), TerminalProfile::Large);
    assert_eq!(prof(100, 30), TerminalProfile::Large);
    assert_eq!(prof(80, 24), TerminalProfile::Medium);
    assert_eq!(prof(70, 20), TerminalProfile::Small);
    assert_eq!(prof(60, 15), TerminalProfile::Tiny);
}

#[test]
fn shell_heights_only_shrink_in_tiny() {
    assert_eq!(TerminalProfile::Large.shell_heights(), (3, 1));
    assert_eq!(TerminalProfile::Medium.shell_heights(), (3, 1));
    assert_eq!(TerminalProfile::Small.shell_heights(), (3, 1));
    assert_eq!(TerminalProfile::Tiny.shell_heights(), (2, 1));
}

#[test]
fn dashboard_keeps_all_sections_at_every_size() {
    for (w, h) in [(120, 40), (100, 30), (80, 24), (70, 20), (60, 15), (60, 12)] {
        let area = Rect::new(0, 0, w, h);
        let profile = TerminalProfile::from_rect(area);
        let (header, status) = profile.shell_heights();
        let body_h = h.saturating_sub(header + status);
        if body_h < 6 {
            continue;
        }
        let body = Rect::new(0, header, w, body_h);
        let l = dashboard_layout(body, profile);
        assert_eq!(l.total(), body_h, "el reparto llena exactamente el cuerpo");
        assert!(l.card >= 3, "tarjeta presente ({l:?})");
        assert!(l.visual >= 1, "visual presente ({l:?})");
        assert!(l.progress >= 1, "progreso presente ({l:?})");
        assert!(l.recs >= 3, "recomendaciones presentes ({l:?})");
        assert!(l.controls >= 1, "controles presentes ({l:?})");
    }
}

#[test]
fn dashboard_grows_card_then_recs_then_controls() {
    let body = Rect::new(0, 4, 120, 60);
    let l = dashboard_layout(body, TerminalProfile::Large);
    assert_eq!(l.card, 34, "tarjeta al tope en terminal amplia");
    assert_eq!(l.recs, 10);
    assert_eq!(l.controls, 8);
    assert_eq!(l.total(), 60);
}

#[test]
fn dashboard_compacts_but_never_drops_sections() {
    let body = Rect::new(0, 3, 70, 16);
    let l = dashboard_layout(body, TerminalProfile::Small);
    assert_eq!(l.total(), 16);
    assert!(l.visual >= 1 && l.progress >= 1 && l.controls >= 1);
    assert!(l.recs >= 3);
    assert!(l.card >= 3);
}

#[test]
fn related_band_never_grows_beyond_small_terminals() {
    for (h, profile) in [
        (20, TerminalProfile::Small),
        (15, TerminalProfile::Tiny),
        (12, TerminalProfile::Tiny),
    ] {
        let band = related_band_height(h, profile);
        assert!((3..=18).contains(&band), "banda {profile:?}@{h}: {band}");
        assert!(band + 2 <= h, "siempre queda sitio para la lista");
    }
}

#[test]
fn shell_areas_keep_header_and_status() {
    let (header, body, status) = shell_areas(Rect::new(0, 0, 80, 24));
    assert_eq!(header, Rect::new(0, 0, 80, 3));
    assert_eq!(body, Rect::new(0, 3, 80, 20));
    assert_eq!(status, Rect::new(0, 23, 80, 1));
    let (header, body, status) = shell_areas(Rect::new(0, 0, 60, 15));
    assert_eq!(header, Rect::new(0, 0, 60, 2));
    assert_eq!(body, Rect::new(0, 2, 60, 12));
    assert_eq!(status, Rect::new(0, 14, 60, 1));
}

#[test]
fn dashboard_areas_follow_the_split() {
    let area = Rect::new(0, 3, 120, 36);
    let split = dashboard_layout(area, TerminalProfile::from_rect(area));
    let areas = dashboard_areas(area);
    let heights: Vec<u16> = areas.iter().map(|a| a.height).collect();
    assert_eq!(
        heights,
        vec![split.card, split.visual, split.progress, split.recs, split.controls]
    );
    assert!(areas.iter().all(|a| a.x == 0 && a.width == 120));
}

#[test]
fn related_and_search_areas_follow_their_parts() {
    let area = Rect::new(0, 3, 80, 20);
    let (band, list) = related_areas(area);
    assert_eq!(band.height, related_band_height(20, TerminalProfile::from_rect(area)));
    assert_eq!(band.height + list.height, 20);
    let (field, results) = search_areas(area);
    assert_eq!((field.height, results.height), (3, 17));
    assert_eq!(results.y, 6);
}

#[test]
fn popups_stay_in_the_middle() {
    assert_eq!(centered(Rect::new(0, 0, 100, 40), 62, 13), Rect::new(19, 13, 62, 13));
    assert_eq!(focused_rect(Rect::new(0, 0, 100, 40), 3), Rect::new(10, 18, 80, 3));
}

#[test]
fn rows_under_the_mouse() {
    let area = Rect::new(0, 5, 40, 10);
    assert_eq!(hover_index(Some((3, 6)), area), Some(0));
    assert_eq!(hover_index(Some((3, 13)), area), Some(7));
    assert_eq!(hover_index(Some((3, 14)), area), None);
    assert_eq!(hover_index(Some((3, 5)), area), None);
    assert_eq!(hover_index(None, area), None);
}

#[test]
fn areas_follow_one_another_at_every_size() {
    for w in [1, 59, 60, 79, 80, 100, 119, 120, 200] {
        for h in 0..100 {
            let area = Rect::new(3, 2, w, h);
            let profile = TerminalProfile::from_rect(area);

            let (field, results) = search_areas(area);
            assert_eq!((field.y, field.height), (2, h.min(3)));
            assert_eq!((results.y, results.height), (2 + h.min(3), h - h.min(3)));

            let wish = related_band_height(h, profile);
            assert!(wish >= 3, "la banda se conserva a {w}x{h}");
            assert!(h < 6 || wish + 3 <= h, "queda sitio para la lista a {w}x{h}");
            let band = wish.min(h);
            let (top, list) = related_areas(area);
            assert_eq!((top.y, top.height), (2, band), "{w}x{h}");
            assert_eq!((list.y, list.height), (2 + band, h - band));

            let (header, _) = profile.shell_heights();
            if h >= header + 2 {
                let (head, body, foot) = shell_areas(area);
                assert_eq!((head.y, head.height), (2, header));
                assert_eq!((body.y, body.height), (2 + header, h - header - 1));
                assert_eq!((foot.y, foot.height), (1 + h, 1));
            }

            let split = dashboard_layout(area, profile);
            assert_eq!(split.total(), h.max(9), "sin hueco a {w}x{h}");
            if h >= 9 {
                let mut y = 2;
                let heights =
                    [split.card, split.visual, split.progress, split.recs, split.controls];
                for (part, height) in dashboard_areas(area).iter().zip(heights) {
                    assert_eq!((part.y, part.height), (y, height), "{w}x{h}");
                    y += height;
                }
            }
        }
    }
}

#[test]
fn columns_of_the_help_share_the_width() {
    for w in 0..400u16 {
        for profile in [TerminalProfile::Large, TerminalProfile::Small, TerminalProfile::Tiny] {
            let columns = help_areas(Rect::new(5, 1, w, 10), profile);
            let n = columns.len() as u32;
            let start = |i: u32| 5 + (2 * i * u32::from(w) + n) / (2 * n);
            for (i, c) in columns.iter().enumerate() {
                let i = i as u32;
                assert_eq!(u32::from(c.x), start(i), "{w} en {n}");
                assert_eq!(u32::from(c.width), start(i + 1) - start(i), "{w} en {n}");
                assert_eq!((c.y, c.height), (1, 10));
            }
        }
    }
}

#[test]
fn tall_bodies_are_filled_by_the_visual() {
    let l = dashboard_layout(Rect::new(0, 4, 120, 80), TerminalProfile::Large);
    assert_eq!((l.card, l.recs, l.controls, l.progress), (34, 10, 8, 6));
    assert_eq!((l.visual, l.total()), (22, 80));
}

#[test]
fn popups_never_leave_their_area() {
    assert_eq!(centered(Rect::new(0, 0, 10, 5), 62, 13), Rect::new(0, 0, 10, 5));
    assert_eq!(centered(Rect::new(3, 2, 21, 9), 62, 13), Rect::new(3, 2, 20, 8));
    assert_eq!(centered(Rect::new(0, 0, 0, 0), 62, 13), Rect::new(0, 0, 0, 0));
    for w in 0..90 {
        for h in 0..30 {
            let r = centered(Rect::new(5, 7, w, h), 62, 13);
            assert!(r.width <= w && r.height <= h, "{w}x{h}");
            assert!(r.x >= 5 && r.x + r.width <= 5 + w && r.y >= 7 && r.y + r.height <= 7 + h);
        }
    }
}

#[test]
fn the_body_keeps_a_row_in_low_areas() {
    for w in [40, 80, 120] {
        for h in 1..12 {
            let (_, body, _) = shell_areas(Rect::new(3, 4, w, h));
            assert!(body.height >= 1, "{w}x{h}");
        }
    }
    assert_eq!(shell_areas(Rect::new(0, 0, 80, 0)).1.height, 0);
}

#[test]
fn taller_bodies_never_shrink_a_section() {
    for profile in [
        TerminalProfile::Large,
        TerminalProfile::Medium,
        TerminalProfile::Small,
        TerminalProfile::Tiny,
    ] {
        let mut last = dashboard_layout(Rect::new(0, 0, 100, 0), profile);
        for h in 1..150 {
            let l = dashboard_layout(Rect::new(0, 0, 100, h), profile);
            assert!(l.card >= last.card && l.visual >= last.visual, "{h}");
            assert!(l.progress >= last.progress && l.recs >= last.recs, "{h}");
            assert!(l.controls >= last.controls, "{h}");
            last = l;
        }
    }
}
