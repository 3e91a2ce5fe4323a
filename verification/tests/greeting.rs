use tunefold::greeting::{GreetingUi, NAME_MAX};

fn lines(g: &GreetingUi, room: usize) -> Vec<String> {
    g.lines(room)
        .iter()
        .map(|l| l.iter().map(|s| s.text.as_str()).collect())
        .collect()
}

#[test]
fn names_have_a_greatest_length() {
    let mut g = GreetingUi::default();
    g.backspace();
    assert_eq!(g.draft_text(), "");
    for _ in 0..NAME_MAX + 5 {
        g.insert_char('ñ');
    }
    assert_eq!(g.name_draft.len(), NAME_MAX);
    g.backspace();
    assert_eq!(g.draft_text(), "ñ".repeat(NAME_MAX - 1));
}

#[test]
fn asking_shows_the_field() {
    let mut g = GreetingUi::default();
    g.franja = "buenos días".to_string();
    g.asking_name = true;
    g.insert_char('A');
    assert_eq!(g.title(), " ¡buenos días! ");
    assert_eq!(
        lines(&g, 20),
        vec![
            "¿Cómo quieres que te llame?",
            "> A▌",
            "Enter guarda el nombre · Esc seguir sin nombre",
            "Aún no hay escucha registrada: busca algo y dale a Enter.",
        ]
    );
}

#[test]
fn known_users_see_their_last_session() {
    let mut g = GreetingUi::default();
    g.franja = "buenas noches".to_string();
    g.display_name = Some("Ana".to_string());
    g.reason = Some("porque escuchaste Queen ×3".to_string());
    g.top_artists = vec!["Queen".to_string(), "ABBA".to_string()];
    g.continue_label = Some("Queen - Bohemian Rhapsody".to_string());
    assert_eq!(g.title(), " buenas noches, Ana ");
    assert_eq!(
        lines(&g, 20),
        vec![
            "Seguimos donde lo dejaste:",
            "♥ porque escuchaste Queen ×3",
            "Artistas: Queen · ABBA",
            "Continúa con: Queen - Bohemian Rhapsody",
            "Enter/Esc cerrar · Shift+3 buscar",
        ]
    );
    assert_eq!(lines(&g, 2).len(), 2, "solo lo que cabe");
    assert!(lines(&g, 0).is_empty());
}
