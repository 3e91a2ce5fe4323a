use tunefold::areas::help_areas;
use tunefold::glyphs::{GlyphTheme, UiGlyphs};
use tunefold::help::{
    bindings, closing_hint, column_help, columns_for, groups, pack_groups, Context, Group, HelpLine,
};
use tunefold::layout::{Rect, TerminalProfile};

#[test]
fn help_covers_every_handled_key() {
    let keys: String = bindings()
        .iter()
        .flat_map(|b| b.keys.chars().collect::<Vec<_>>())
        .collect();
    for need in [
        "Shift+1", "Shift+2", "Shift+3", "Shift+4", "Shift+5", "Shift+6", "Shift+7", "Shift+8",
        "Esc", "q", "Ctrl+C", "Shift+H", "Espacio", "Shift+D", "Shift+A", "←", "→", "l", "w",
        "s", "↑", "↓", "Enter", "a", "v", "f", "t", "r", "R", "n", "p", "d", "x", "u", "Tab",
        "Retro", "Supr", "Inicio", "Fin",
    ] {
        assert!(
            keys.contains(need),
            "atajo «{need}» sin documentar en BINDINGS"
        );
    }
}

#[test]
fn every_context_is_labeled() {
    for ctx in [
        Context::Global,
        Context::Playback,
        Context::Navigation,
        Context::Queue,
        Context::Search,
        Context::Playlists,
        Context::Sources,
        Context::Metadata,
        Context::Settings,
        Context::Related,
        Context::Other,
    ] {
        assert!(!ctx.label().is_empty(), "contexto sin etiqueta: {ctx:?}");
    }
}

#[test]
fn descriptions_never_rely_on_glyphs() {
    for b in bindings() {
        assert!(
            b.keys
                .chars()
                .all(|c| c.is_ascii() || matches!(c, '↑' | '↓' | '←' | '→' | 'ó')),
            "teclas con glifos poco presentes: {b:?}"
        );
        assert!(
            !b.desc.contains('♥') && !b.desc.contains("▶"),
            "descripción con glifo funcional: {b:?}"
        );
    }
}

#[test]
fn bindings_are_grouped_by_context() {
    let grouped = groups();
    for g in &grouped {
        for i in g.rows().skip(1) {
            assert_eq!(
                bindings()[i].context, g.context,
                "filas no contiguas en {g:?}"
            );
        }
    }
    let covered: usize = grouped.iter().map(|g| g.len).sum();
    assert_eq!(covered, bindings().len(), "todos los atajos agrupados");
}

#[test]
fn full_table_fits_without_dropping_on_ampios_and_medium() {
    for (avail_height, ncols) in [(28usize, 3usize), (22, 3)] {
        let g = groups();
        let (cols, dropped) = pack_groups(&g, avail_height, ncols);
        assert!(dropped.is_empty(), "se pierden grupos: {dropped:?}");
        let shown: usize = cols
            .iter()
            .map(|c| c.iter().map(|g| g.lines()).sum::<usize>())
            .sum();
        let total: usize = g.iter().map(|g| g.lines()).sum();
        assert_eq!(shown, total, "todo el contenido visible");
        for c in &cols {
            let lines: usize = c.iter().map(|g| g.lines()).sum();
            assert!(
                lines <= avail_height,
                "columna desborda: {lines} > {avail_height}"
            );
        }
    }
}

#[test]
fn every_binding_lands_in_exactly_one_column() {
    let g = groups();
    let (cols, dropped) = pack_groups(&g, 22, 3);
    assert!(dropped.is_empty());
    let mut seen: Vec<usize> = Vec::new();
    for c in &cols {
        for grp in c {
            for i in grp.rows() {
                assert!(!seen.contains(&i), "binding duplicado {i}");
                seen.push(i);
            }
        }
    }
    assert_eq!(seen, (0..bindings().len()).collect::<Vec<_>>());
}

#[test]
fn every_row_fits_slimmest_medium_column() {
    for b in bindings() {
        let len = b.keys.chars().count() + 2 + b.desc.chars().count();
        assert!(
            len <= 25,
            "fila de 26+ caracteres: «{len}» {b:?} — hay que recortar la descripción"
        );
    }
}

#[test]
fn small_terminal_prioritizes_global_and_never_splits() {
    let g = groups();
    let (cols, dropped) = pack_groups(&g, 14, 2);
    assert!(cols[0].iter().any(|grp| grp.context == Context::Global));
    for grp in &cols[0] {
        if grp.context == Context::Global {
            assert_eq!(
                grp.len,
                bindings()
                    .iter()
                    .filter(|b| b.context == Context::Global)
                    .count()
            );
        }
    }
    for grp in &dropped {
        assert!(
            grp.len > 0 && !cols.iter().flatten().any(|c| c.context == grp.context),
            "grupo {grp:?} duplicado o parcial"
        );
    }
    assert!(
        dropped.iter().any(|g| g.context == Context::Settings)
            || cols
                .iter()
                .flatten()
                .find(|g| g.context == Context::Settings)
                .is_some(),
        "Ajustes existe en la tabla"
    );
}

/// The lines of a column as they are drawn.
fn drawn(col: &Vec<Group>) -> Vec<String> {
    column_help(col)
        .iter()
        .map(|l| match l {
            HelpLine::Heading(c) => c.label().to_string(),
            HelpLine::Row(i) => format!("{}  {}", bindings()[*i].keys, bindings()[*i].desc),
        })
        .collect()
}

/// The help on a screen, column by column, each line cut to its column.
fn help_on(w: u16, h: u16) -> Vec<String> {
    let area = Rect::new(0, 0, w, h);
    let profile = TerminalProfile::from_rect(area);
    let inner = Rect::new(1, 1, w - 2, h - 2);
    let ncols = columns_for(profile);
    let (cols, _) = pack_groups(&groups(), inner.height as usize, ncols);
    let areas = help_areas(inner, profile);
    assert_eq!(areas.len(), ncols);
    let mut lines = Vec::new();
    for (col, rect) in cols.iter().zip(areas.iter()) {
        for line in drawn(col).into_iter().take(rect.height as usize) {
            lines.push(line.chars().take(rect.width as usize).collect());
        }
    }
    lines
}

#[test]
fn render_shows_every_command_on_medium() {
    let text = help_on(80, 24).join("\n");
    for b in bindings() {
        assert!(
            text.contains(b.keys) && text.contains(b.desc),
            "atajo/descripción «{} · {}» no visible en 80x24",
            b.keys,
            b.desc
        );
    }
}

#[test]
fn render_without_scroll_keys_on_every_profile() {
    for (w, h) in [(120, 40), (100, 30), (80, 24), (70, 20), (60, 15)] {
        let text = help_on(w, h).join("\n");
        assert!(
            !text.contains("PgUp") && !text.contains("PgDn") && !text.contains("desplazar"),
            "la ayuda ya no ofrece scroll a {w}x{h}"
        );
        assert!(!text.is_empty());
    }
}

#[test]
fn closing_hint_only_where_there_is_room() {
    let glyphs = UiGlyphs::new(GlyphTheme::Unicode);
    let hint = closing_hint(TerminalProfile::Medium, glyphs).unwrap();
    assert_eq!(hint, "› cualquier tecla cierra · Shift+1..8 cambia de vista");
    assert!(closing_hint(TerminalProfile::Large, glyphs).is_some());
    assert!(closing_hint(TerminalProfile::Small, glyphs).is_none());
    assert!(closing_hint(TerminalProfile::Tiny, glyphs).is_none());
}
