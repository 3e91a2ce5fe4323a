use std::collections::HashSet;
use std::sync::Arc;

use tunefold::domain::{CoverImage, ThumbnailState};
use tunefold::glyphs::{GlyphTheme, UiGlyphs};
use tunefold::ink::Ink;
use tunefold::layout::Rect;
use tunefold::thumb::{
    centered_frame_rect, contrast_boost, dim_for_mat, fit_rect, frame_cell, frame_color, frame_plan,
    gradient_base, image_cell, inset_rect, placeholder, FrameRole, HalfBlock,
};

fn image(width: u32, height: u32, rgba: Vec<u8>, palette: Option<[[u8; 3]; 3]>) -> CoverImage {
    CoverImage { width, height, rgba, palette }
}

fn thumb(
    width: u32,
    height: u32,
    rgba: Vec<u8>,
    palette: Option<[[u8; 3]; 3]>,
) -> ThumbnailState {
    ThumbnailState::Loaded(Arc::new(image(width, height, rgba, palette)))
}

fn opaque(w: u32, h: u32) -> Vec<u8> {
    let mut v = Vec::with_capacity((w * h * 4) as usize);
    for _ in 0..(w * h) {
        v.extend_from_slice(&[40, 200, 90, 255]);
    }
    v
}

/// The cells of an area, row by row.
fn drawn(w: u16, h: u16, img: &CoverImage) -> Vec<(u16, u16, HalfBlock)> {
    let mut cells = Vec::new();
    for y in 0..h {
        for x in 0..w {
            cells.push((x, y, image_cell(img, w, h, x, y)));
        }
    }
    cells
}

fn half_block_cells(w: u16, h: u16, img: &CoverImage) -> Vec<(u16, u16, char, Option<[u8; 3]>)> {
    drawn(w, h, img)
        .into_iter()
        .filter(|(_, _, b)| b.symbol() != ' ')
        .map(|(x, y, b)| (x, y, b.symbol(), b.foreground()))
        .collect()
}

/// The symbols and colours of a framed cover, by cell.
fn framed(w: u16, h: u16, state: &ThumbnailState) -> Vec<Vec<(char, Option<[u8; 3]>)>> {
    let mut grid = vec![vec![(' ', None); w as usize]; h as usize];
    let plan = frame_plan(Rect::new(0, 0, w, h), state);
    let palette = match state {
        ThumbnailState::Loaded(img) => img.palette,
        _ => None,
    };
    for (ring, role) in [(plan.outer, FrameRole::Outer), (plan.inner, FrameRole::Inner)] {
        if let Some(area) = ring {
            for y in 0..area.height {
                for x in 0..area.width {
                    if let Some(cell) = frame_cell(area, palette, role, x, y) {
                        grid[(area.y + y) as usize][(area.x + x) as usize] =
                            (cell.symbol, Some(cell.color));
                    }
                }
            }
        }
    }
    grid
}

fn luminance(c: [u8; 3]) -> f64 {
    (0.299 * c[0] as f64 + 0.587 * c[1] as f64 + 0.114 * c[2] as f64) / 255.0
}

#[test]
fn loading_and_failed_do_not_panic() {
    let glyphs = UiGlyphs::new(GlyphTheme::Ascii);
    let loading = placeholder(&ThumbnailState::Loading, glyphs, 0).unwrap();
    assert_eq!((loading.text.as_str(), loading.ink), ("- cargando miniatura…", Ink::Yellow));
    let failed = placeholder(&ThumbnailState::Failed, glyphs, 0).unwrap();
    assert_eq!((failed.text.as_str(), failed.ink), ("⚠ miniatura no disponible", Ink::Red));
    let missing = placeholder(&ThumbnailState::Missing, glyphs, 0).unwrap();
    assert_eq!((missing.text.as_str(), missing.ink), ("sin miniatura", Ink::DarkGray));
    assert!(placeholder(&thumb(2, 2, opaque(2, 2), None), glyphs, 0).is_none());
    for state in [ThumbnailState::Loading, ThumbnailState::Failed, ThumbnailState::Missing] {
        let plan = frame_plan(Rect::new(0, 0, 10, 5), &state);
        assert_eq!(plan.outer, Some(Rect::new(0, 0, 10, 5)));
        assert_eq!(plan.inner, None);
        assert_eq!(plan.content, Rect::new(1, 1, 8, 3));
    }
}

#[test]
fn loaded_draws_half_blocks() {
    let img = image(2, 4, (0..(2 * 4 * 4)).map(|i| i as u8).collect(), None);
    assert!(!half_block_cells(10, 5, &img).is_empty(), "debe pintar medio bloques");
}

#[test]
fn no_half_blocks_outside_drawn_image() {
    let img = image(4, 4, opaque(4, 4), None);
    let (dw, dh, x0, y0) = fit_rect(6, 6, 4, 4);
    assert_eq!((dw, dh), (6, 6));
    for (x, y, s, _) in half_block_cells(6, 6, &img) {
        let px_y = y as usize * 2;
        let inside_x = (x as usize) >= x0 && (x as usize) < x0 + dw;
        let inside_y = (px_y >= y0 && px_y < y0 + dh) || (px_y + 1 >= y0 && px_y + 1 < y0 + dh);
        assert!(inside_x && inside_y, "medio bloque '{s}' en ({x},{y}) fuera de la imagen");
    }
    let rows_with_blocks: HashSet<u16> =
        half_block_cells(6, 6, &img).into_iter().map(|(_, y, _, _)| y).collect();
    assert_eq!(rows_with_blocks.len(), 4, "debe ocupar las filas centradas");
}

#[test]
fn half_block_foreground_never_reset_in_empty_zone() {
    let img = image(2, 2, opaque(2, 2), None);
    let blocks = half_block_cells(6, 6, &img);
    assert!(!blocks.is_empty(), "debe haber medio bloques");
    for (x, y, s, fg) in &blocks {
        assert_ne!(*fg, None, "foreground Reset visible en medio bloque ({x},{y}) '{s}'");
    }
}

#[test]
fn transparent_pixels_render_as_spaces() {
    let mut rgba = Vec::with_capacity(2 * 2 * 4);
    for _ in 0..4 {
        rgba.extend_from_slice(&[255, 0, 0, 0]);
    }
    let img = image(2, 2, rgba, None);
    assert!(
        half_block_cells(6, 6, &img).is_empty(),
        "píxeles transparentes no deben pintarse"
    );
}

#[test]
fn frame_stays_visible_for_dark_and_light_covers() {
    for palette in [
        Some([[0, 0, 0], [4, 4, 4], [10, 10, 12]]),
        Some([[255, 255, 255], [255, 0, 0], [0, 0, 255]]),
    ] {
        let state = thumb(4, 4, opaque(4, 4), palette);
        let grid = framed(12, 8, &state);
        assert_eq!(grid[0][0].0, '+', "esquina superior izquierda");
        assert_eq!(grid[7][11].0, '+', "esquina inferior derecha");
        let mut colored = false;
        for x in 0..12 {
            for y in [0usize, 7] {
                if let Some([r, g, b]) = grid[y][x].1 {
                    colored = true;
                    if palette == Some([[0, 0, 0], [4, 4, 4], [10, 10, 12]]) {
                        assert!(
                            r as u32 + g as u32 + b as u32 >= 240,
                            "borde demasiado oscuro contra el fondo: {r},{g},{b}"
                        );
                    }
                }
            }
        }
        assert!(colored, "el borde debe estar coloreado");
    }
}

#[test]
fn contrast_boost_keeps_dark_border_visible() {
    let boosted = contrast_boost([0, 0, 0]);
    assert!(luminance(boosted) >= 0.35, "negro puro debe aclararse");
    assert_eq!(contrast_boost([255, 0, 0]), [255, 0, 0], "claros sin tocar");
}

#[test]
fn frame_insets_define_the_real_image_content_rect() {
    let outer = Rect::new(10, 4, 20, 14);
    let after_outer = inset_rect(outer, 1);
    let content = inset_rect(after_outer, 1);
    assert_eq!(after_outer, Rect::new(11, 5, 18, 12));
    assert_eq!(content, Rect::new(12, 6, 16, 10));
}

#[test]
fn fit_rect_preserves_aspect_ratio() {
    let cases: &[(usize, usize, usize, usize)] = &[
        (10, 5, 100, 100),
        (10, 5, 1, 1),
        (10, 5, 4, 3),
        (10, 5, 16, 9),
        (10, 20, 3, 4),
        (40, 12, 320, 180),
        (6, 6, 2, 4),
    ];
    for &(cw, ch, iw, ih) in cases {
        let (dw, dh, x0, y0) = fit_rect(cw, ch, iw, ih);
        assert!(dw >= 1 && dw <= cw, "ancho fuera de límites ({dw} > {cw})");
        assert!(dh >= 1 && dh <= ch * 2, "alto fuera de límites ({dh} > {})", ch * 2);
        assert!(x0 + dw <= cw && y0 + dh <= ch * 2, "desborda el área");
        let img_ratio = iw as f64 / ih as f64;
        let draw_ratio = dw as f64 / dh as f64;
        let tol = (1.0 / dw as f64) + (1.0 / dh as f64);
        assert!(
            (draw_ratio - img_ratio).abs() <= tol.max(0.08),
            "proporción rota en {cw}x{ch} con imagen {iw}x{ih}: {draw_ratio:.3} vs {img_ratio:.3}"
        );
    }
}

#[test]
fn extreme_images_produce_no_artifacts() {
    for (w, h) in [(1u32, 200u32), (200u32, 1u32), (300, 200), (1, 1)] {
        let img = image(w, h, opaque(w, h), None);
        let (dw, dh, x0, y0) = fit_rect(10, 5, w as usize, h as usize);
        for (x, y, s, _) in half_block_cells(10, 5, &img) {
            let inside_x = (x as usize) >= x0 && (x as usize) < x0 + dw;
            let py = y as usize * 2;
            let inside_y = (py >= y0 && py < y0 + dh) || (py + 1 >= y0 && py + 1 < y0 + dh);
            assert!(inside_x && inside_y, "artefacto '{s}' en ({x},{y}) para imagen {w}x{h}");
        }
    }
}

#[test]
fn framed_renders_ascii_box_with_palette_gradient() {
    let state = thumb(
        2,
        2,
        vec![255; 16],
        Some([[255, 0, 0], [0, 255, 0], [0, 0, 255]]),
    );
    let grid = framed(8, 6, &state);
    assert_eq!(grid[0][0].0, '+');
    assert_eq!(grid[0][7].0, '+');
    assert_eq!(grid[5][7].0, '+');
    assert_eq!(grid[1][1].0, '+', "marco interior (passe-partout)");
    assert_eq!(grid[3][0].0, '|');
    assert_eq!(grid[2][7].0, '|');
    assert_eq!(grid[0][4].0, '-');
    assert_eq!(grid[5][4].0, '-');
    let Some([r, g, b]) = grid[0][1].1 else {
        panic!("borde superior debe estar coloreado");
    };
    assert!(r as u32 + g as u32 + b as u32 > 0);
}

#[test]
fn frame_follows_the_proportion_of_the_image() {
    let wide = thumb(200, 100, opaque(200, 100), None);
    assert_eq!(centered_frame_rect(Rect::new(0, 0, 44, 24), &wide), Rect::new(0, 5, 44, 14));
    let tall = thumb(100, 200, opaque(100, 200), None);
    assert_eq!(centered_frame_rect(Rect::new(0, 0, 44, 24), &tall), Rect::new(10, 0, 24, 24));
    assert_eq!(
        centered_frame_rect(Rect::new(3, 2, 44, 24), &ThumbnailState::Loading),
        Rect::new(3, 2, 44, 24)
    );
}

#[test]
fn gradient_goes_round_the_palette() {
    let p = [[255, 0, 0], [0, 255, 0], [0, 0, 255]];
    assert_eq!(gradient_base(&p, 0, 6), [255, 0, 0]);
    assert_eq!(gradient_base(&p, 1, 6), [128, 128, 0]);
    assert_eq!(gradient_base(&p, 2, 6), [0, 255, 0]);
    assert_eq!(gradient_base(&p, 4, 6), [0, 0, 255]);
    assert_eq!(gradient_base(&p, 5, 6), [128, 0, 128]);
    assert_eq!(gradient_base(&p, 6, 6), [255, 0, 0]);
}

#[test]
fn frame_colors_by_role() {
    assert_eq!(contrast_boost([0, 0, 0]), [229, 229, 229]);
    assert_eq!(contrast_boost([40, 40, 40]), [190, 190, 190]);
    assert_eq!(dim_for_mat([255, 255, 255]), [129, 129, 132]);
    assert_eq!(dim_for_mat([0, 0, 0]), [14, 14, 17]);
    assert_eq!(frame_color(None, FrameRole::Outer, 0, 0), [110, 110, 110]);
    assert_eq!(frame_color(None, FrameRole::Inner, 0, 0), [63, 63, 67]);
}

#[test]
fn half_blocks_show_two_pixels() {
    let img = image(1, 2, vec![1, 2, 3, 255, 4, 5, 6, 255], None);
    let cell = image_cell(&img, 1, 1, 0, 0);
    assert_eq!(cell.symbol(), '▀');
    assert_eq!(cell.foreground(), Some([1, 2, 3]));
    assert_eq!(cell.background(), Some([4, 5, 6]));
    let lower = image(1, 2, vec![1, 2, 3, 0, 4, 5, 6, 255], None);
    let cell = image_cell(&lower, 1, 1, 0, 0);
    assert_eq!(cell.symbol(), '▄');
    assert_eq!(cell.foreground(), Some([4, 5, 6]));
    assert_eq!(cell.background(), None);
}

#[test]
fn frames_of_very_wide_areas_have_corners() {
    let area = Rect::new(0, 0, 32_768, 2);
    let corner = frame_cell(area, None, FrameRole::Inner, 0, 0);
    assert!(corner.is_some());
    let tall = Rect::new(0, 0, 20_000, 20_000);
    assert!(frame_cell(tall, None, FrameRole::Outer, 19_999, 19_999).is_some());
    assert!(frame_cell(tall, None, FrameRole::Outer, 10_000, 10_000).is_none());
}
