//! The daily welcome: it asks for a name the first time and tells where the last
//! session ended.

use vstd::prelude::*;

#[allow(unused_imports)]
use crate::ink::{rows_shown, shown};
use crate::ink::{Ink, Span};
use crate::text::{concat2, concat3, from_chars, join};
#[allow(unused_imports)]
use crate::text::{joined, texts};

verus! {

/// Longest name, in characters.
pub const NAME_MAX: usize = 32;

/// The state of the welcome.
#[derive(Debug)]
pub struct GreetingUi {
    /// The greeting of the hour.
    pub franja: String,
    /// The name of the user, once it is known.
    pub display_name: Option<String>,
    /// Whether the name is being asked for.
    pub asking_name: bool,
    /// The name as far as it is typed.
    pub name_draft: Vec<char>,
    /// Why this is recommended.
    pub reason: Option<String>,
    /// The artists played most.
    pub top_artists: Vec<String>,
    /// The song to go on with.
    pub continue_label: Option<String>,
}

impl Default for GreetingUi {
    fn default() -> (r: Self)
        ensures
            r.franja@ == ""@,
            r.display_name is None,
            !r.asking_name,
            r.name_draft@ == Seq::<char>::empty(),
            r.reason is None,
            r.top_artists@ == Seq::<String>::empty(),
            r.continue_label is None,
    {
        GreetingUi {
            franja: "".to_string(),
            display_name: None,
            asking_name: false,
            name_draft: Vec::new(),
            reason: None,
            top_artists: Vec::new(),
            continue_label: None,
        }
    }
}

/// Everything but the typed name stays.
pub open spec fn draft_changed(pre: GreetingUi, post: GreetingUi) -> bool {
    post == (GreetingUi { name_draft: post.name_draft, ..pre })
}

/// The title of the welcome.
pub open spec fn greeting_title(g: GreetingUi) -> Seq<char> {
    match g.display_name {
        Some(n) => " "@ + g.franja@ + ", "@ + n@ + " "@,
        None => " ¡"@ + g.franja@ + "! "@,
    }
}

/// What stands above the last session: the field for the name, or a sentence.
pub open spec fn opening_lines(g: GreetingUi) -> Seq<Seq<(Seq<char>, Ink, bool)>> {
    if g.asking_name {
        seq![
            seq![("¿Cómo quieres que te llame?"@, Ink::Plain, false)],
            seq![
                ("> "@, Ink::Cyan, false),
                (g.name_draft@, Ink::Plain, false),
                ("▌"@, Ink::DarkGray, false),
            ],
            seq![("Enter guarda el nombre · Esc seguir sin nombre"@, Ink::DarkGray, false)],
        ]
    } else {
        seq![seq![("Seguimos donde lo dejaste:"@, Ink::Plain, false)]]
    }
}

/// What is told of the last session, as far as it is known.
pub open spec fn session_lines(g: GreetingUi) -> Seq<Seq<(Seq<char>, Ink, bool)>> {
    (match g.reason {
        Some(r) => seq![seq![("♥ "@, Ink::LightRed, false), (r@, Ink::Plain, false)]],
        None => Seq::empty(),
    }) + (if g.top_artists@.len() > 0 {
        seq![
            seq![("Artistas: "@ + joined(texts(g.top_artists@), " · "@), Ink::Plain, false)],
        ]
    } else {
        Seq::empty()
    }) + (match g.continue_label {
        Some(c) => seq![
            seq![("Continúa con: "@, Ink::Plain, false), (c@, Ink::Yellow, false)],
        ],
        None => Seq::empty(),
    }) + (if g.reason is None && g.continue_label is None {
        seq![
            seq![
                (
                    "Aún no hay escucha registrada: busca algo y dale a Enter."@,
                    Ink::Plain,
                    false,
                ),
            ],
        ]
    } else {
        Seq::empty()
    })
}

/// The keys that close the welcome; while the name is asked for they stand above.
pub open spec fn closing_lines(g: GreetingUi) -> Seq<Seq<(Seq<char>, Ink, bool)>> {
    if g.asking_name {
        Seq::empty()
    } else {
        seq![seq![("Enter/Esc cerrar · Shift+3 buscar"@, Ink::DarkGray, false)]]
    }
}

/// The lines of the welcome.
pub open spec fn greeting_lines(g: GreetingUi) -> Seq<Seq<(Seq<char>, Ink, bool)>> {
    opening_lines(g) + session_lines(g) + closing_lines(g)
}

fn push_line(lines: &mut Vec<Vec<Span>>, line: Vec<Span>)
    ensures
        rows_shown(final(lines)@) == rows_shown(old(lines)@).push(shown(line@)),
{
    let ghost before = lines@;
    lines.push(line);
    assert(rows_shown(lines@) =~= rows_shown(before).push(shown(line@)));
}

fn line_of(span: Span) -> (r: Vec<Span>)
    ensures
        shown(r@) == seq![(span.text@, span.ink, span.bold)],
{
    let mut line: Vec<Span> = Vec::new();
    line.push(span);
    assert(shown(line@) =~= seq![(span.text@, span.ink, span.bold)]);
    line
}

fn line_of_two(a: Span, b: Span) -> (r: Vec<Span>)
    ensures
        shown(r@) == seq![(a.text@, a.ink, a.bold), (b.text@, b.ink, b.bold)],
{
    let mut line: Vec<Span> = Vec::new();
    line.push(a);
    line.push(b);
    assert(shown(line@) =~= seq![(a.text@, a.ink, a.bold), (b.text@, b.ink, b.bold)]);
    line
}

impl GreetingUi {
    /// Adds a character to the name, up to its greatest length.
    pub fn insert_char(&mut self, c: char)
        ensures
            final(self).name_draft@ == if old(self).name_draft@.len() < NAME_MAX {
                old(self).name_draft@.push(c)
            } else {
                old(self).name_draft@
            },
            draft_changed(*old(self), *final(self)),
    {
        if self.name_draft.len() < NAME_MAX {
            self.name_draft.push(c);
        }
    }

    /// Removes the last character of the name.
    pub fn backspace(&mut self)
        ensures
            final(self).name_draft@ == if old(self).name_draft@.len() > 0 {
                old(self).name_draft@.drop_last()
            } else {
                old(self).name_draft@
            },
            draft_changed(*old(self), *final(self)),
    {
        self.name_draft.pop();
    }

    /// The name as far as it is typed.
    pub fn draft_text(&self) -> (r: String)
        ensures
            r@ == self.name_draft@,
    {
        from_chars(&self.name_draft)
    }

    /// The title of the welcome.
    pub fn title(&self) -> (r: String)
        ensures
            r@ == greeting_title(*self),
    {
        match &self.display_name {
            Some(n) => {
                let head = concat3(" ", self.franja.as_str(), ", ");
                concat3(head.as_str(), n.as_str(), " ")
            },
            None => concat3(" ¡", self.franja.as_str(), "! "),
        }
    }

    /// The lines of the welcome, as many as there is room for.
    pub fn lines(&self, room: usize) -> (r: Vec<Vec<Span>>)
        ensures
            rows_shown(r@) == (if greeting_lines(*self).len() <= room {
                greeting_lines(*self)
            } else {
                greeting_lines(*self).take(room as int)
            }),
    {
        let mut lines: Vec<Vec<Span>> = Vec::new();
        assert(rows_shown(lines@) =~= Seq::empty());
        if self.asking_name {
            push_line(&mut lines, line_of(Span::plain("¿Cómo quieres que te llame?")));
            let mut field: Vec<Span> = Vec::new();
            field.push(Span::inked("> ", Ink::Cyan));
            field.push(Span::new(self.draft_text(), Ink::Plain));
            field.push(Span::inked("▌", Ink::DarkGray));
            assert(shown(field@) =~= opening_lines(*self)[1]);
            push_line(&mut lines, field);
            push_line(
                &mut lines,
                line_of(
                    Span::inked("Enter guarda el nombre · Esc seguir sin nombre", Ink::DarkGray),
                ),
            );
        } else {
            push_line(&mut lines, line_of(Span::plain("Seguimos donde lo dejaste:")));
        }
        assert(rows_shown(lines@) =~= opening_lines(*self));
        if let Some(reason) = &self.reason {
            push_line(
                &mut lines,
                line_of_two(
                    Span::inked("♥ ", Ink::LightRed),
                    Span::plain(reason.as_str()),
                ),
            );
        }
        if self.top_artists.len() > 0 {
            let artists = join(&self.top_artists, " · ");
            push_line(
                &mut lines,
                line_of(Span::new(concat2("Artistas: ", artists.as_str()), Ink::Plain)),
            );
        }
        if let Some(song) = &self.continue_label {
            push_line(
                &mut lines,
                line_of_two(
                    Span::plain("Continúa con: "),
                    Span::inked(song.as_str(), Ink::Yellow),
                ),
            );
        }
        if self.reason.is_none() && self.continue_label.is_none() {
            push_line(
                &mut lines,
                line_of(
                    Span::plain("Aún no hay escucha registrada: busca algo y dale a Enter."),
                ),
            );
        }
        assert(rows_shown(lines@) =~= opening_lines(*self) + session_lines(*self));
        if !self.asking_name {
            push_line(
                &mut lines,
                line_of(Span::inked("Enter/Esc cerrar · Shift+3 buscar", Ink::DarkGray)),
            );
        }
        assert(rows_shown(lines@) =~= greeting_lines(*self));
        assert(lines@.len() == rows_shown(lines@).len());
        if lines.len() > room {
            let ghost all = lines@;
            lines.truncate(room);
            assert(rows_shown(lines@) =~= rows_shown(all).take(room as int));
        }
        lines
    }
}

/// A name never grows longer than its greatest length, and removing what was
/// typed gives the name back.
pub proof fn law_typing_a_name(draft: Seq<char>, c: char)
    requires
        draft.len() < NAME_MAX,
    ensures
        draft.push(c).len() <= NAME_MAX,
        draft.push(c).drop_last() == draft,
{
    assert(draft.push(c).drop_last() =~= draft);
}

/// The greeting names the hour and, once it is known, the user.
pub proof fn law_greeting_names_the_user(g: GreetingUi, title: String)
    requires
        call_ensures(GreetingUi::title, (&g,), title),
    ensures
        g.display_name is Some ==> title@ == seq![' '] + g.franja@ + seq![',', ' ']
            + g.display_name->0@ + seq![' '],
        g.display_name is None ==> title@.subrange(2, 2int + g.franja@.len()) == g.franja@,
{
    reveal_strlit(" ");
    reveal_strlit(", ");
    reveal_strlit(" ¡");
    reveal_strlit("! ");
    assert(" "@ =~= seq![' ']);
    assert(", "@ =~= seq![',', ' ']);
    if g.display_name is None {
        assert(title@.subrange(2, 2int + g.franja@.len()) =~= g.franja@);
    }
}

/// The greeting never has more lines than there is room for. Where there is room,
/// it shows the name as far as it is typed while that is asked for, the reason,
/// the artists and the song to go on with, as far as they are known, in this
/// order.
pub proof fn law_greeting_tells_what_is_known(g: GreetingUi, room: usize, lines: Vec<Vec<Span>>)
    requires
        call_ensures(GreetingUi::lines, (&g, room), lines),
        room >= 8,
    ensures
        lines@.len() <= 8,
        ({
            let at: int = if g.asking_name {
                3
            } else {
                1
            };
            let artists = at + (if g.reason is Some {
                1int
            } else {
                0int
            });
            let song = artists + (if g.top_artists@.len() > 0 {
                1int
            } else {
                0int
            });
            &&& g.asking_name ==> lines@.len() >= 3 && lines@[1]@.len() == 3
                && lines@[1]@[1].text@ == g.name_draft@
            &&& g.reason is Some ==> at < lines@.len() && lines@[at]@.len() == 2
                && lines@[at]@[1].text@ == g.reason->0@
            &&& g.top_artists@.len() > 0 ==> artists < lines@.len() && lines@[artists]@.len() == 1
                && lines@[artists]@[0].text@ == "Artistas: "@ + joined(
                texts(g.top_artists@),
                " · "@,
            )
            &&& g.continue_label is Some ==> song < lines@.len() && lines@[song]@.len() == 2
                && lines@[song]@[1].text@ == g.continue_label->0@
        }),
{
    let s = greeting_lines(g);
    let all = rows_shown(lines@);
    assert(opening_lines(g).len() <= 3 && session_lines(g).len() <= 4 && closing_lines(g).len()
        <= 1);
    assert(opening_lines(g).len() + closing_lines(g).len() <= 3);
    assert(all == s);
    assert(lines@.len() == s.len());
    let at: int = if g.asking_name {
        3
    } else {
        1
    };
    let artists = at + (if g.reason is Some {
        1int
    } else {
        0int
    });
    let song = artists + (if g.top_artists@.len() > 0 {
        1int
    } else {
        0int
    });
    if g.asking_name {
        assert(all[1] == s[1]);
        assert(shown(lines@[1]@) == s[1]);
        assert(s[1].len() == 3);
        assert(lines@[1]@.len() == 3);
        assert(shown(lines@[1]@)[1] == s[1][1]);
    }
    if g.reason is Some {
        assert(all[at] == s[at]);
        assert(shown(lines@[at]@) == s[at]);
        assert(s[at] == session_lines(g)[0]);
        assert(lines@[at]@.len() == 2);
        assert(shown(lines@[at]@)[1] == s[at][1]);
    }
    if g.top_artists@.len() > 0 {
        assert(all[artists] == s[artists]);
        assert(shown(lines@[artists]@) == s[artists]);
        assert(s[artists] == session_lines(g)[artists - at]);
        assert(lines@[artists]@.len() == 1);
        assert(shown(lines@[artists]@)[0] == s[artists][0]);
    }
    if g.continue_label is Some {
        assert(all[song] == s[song]);
        assert(shown(lines@[song]@) == s[song]);
        assert(s[song] == session_lines(g)[song - at]);
        assert(lines@[song]@.len() == 2);
        assert(shown(lines@[song]@)[1] == s[song][1]);
    }
}

/// A typed character goes to the end of the name, up to thirty-two of them, and
/// Backspace takes it away again.
pub proof fn law_names_are_typed(g: &mut GreetingUi, c: char, h: &mut GreetingUi)
    requires
        call_ensures(GreetingUi::insert_char, (g, c), ()),
        *old(h) == *final(g),
        call_ensures(GreetingUi::backspace, (h,), ()),
    ensures
        old(g).name_draft@.len() < 32 ==> final(g).name_draft@ == old(g).name_draft@ + seq![c]
            && final(h).name_draft@ == old(g).name_draft@,
        old(g).name_draft@.len() >= 32 ==> final(g).name_draft@ == old(g).name_draft@,
        final(h).display_name == old(g).display_name,
        final(h).asking_name == old(g).asking_name,
{
    let draft = old(g).name_draft@;
    assert(draft.push(c) =~= draft + seq![c]);
    assert(draft.push(c).drop_last() =~= draft);
}

} // verus!
