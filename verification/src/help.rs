//! The table of keyboard shortcuts and the pages of the help screen.
//!
//! The help never scrolls and never splits a category between columns. Roomy
//! terminals show the whole table in three columns; narrow ones show the
//! categories that fit, in the order of the table.

use vstd::prelude::*;

use vstd::string::StringExecFns;

use crate::glyphs::UiGlyphs;
use crate::layout::TerminalProfile;

verus! {

/// Where a shortcut works.
#[derive(Debug, Clone, Copy, PartialEq, Eq, PartialOrd, Ord, Structural)]
pub enum Context {
    Global,
    Playback,
    Navigation,
    Queue,
    Search,
    Playlists,
    Sources,
    Metadata,
    Settings,
    Related,
    Other,
}

pub open spec fn context_text(c: Context) -> Seq<char> {
    match c {
        Context::Global => "Global"@,
        Context::Playback => "Reproducción"@,
        Context::Navigation => "Navegación"@,
        Context::Queue => "Cola"@,
        Context::Search => "Búsqueda"@,
        Context::Playlists => "Playlists"@,
        Context::Sources => "Fuentes"@,
        Context::Metadata => "Metadatos"@,
        Context::Settings => "Ajustes"@,
        Context::Related => "Relacionadas"@,
        Context::Other => "Otros"@,
    }
}

impl Context {
    /// Heading of the category.
    pub fn label(self) -> (r: &'static str)
        ensures
            r@ == context_text(self),
    {
        match self {
            Context::Global => "Global",
            Context::Playback => "Reproducción",
            Context::Navigation => "Navegación",
            Context::Queue => "Cola",
            Context::Search => "Búsqueda",
            Context::Playlists => "Playlists",
            Context::Sources => "Fuentes",
            Context::Metadata => "Metadatos",
            Context::Settings => "Ajustes",
            Context::Related => "Relacionadas",
            Context::Other => "Otros",
        }
    }
}

/// A row of the help: the keys and, in words, what they do.
#[derive(Debug, Clone, Copy)]
pub struct KeyBinding {
    pub context: Context,
    /// The keys as they are shown.
    pub keys: &'static str,
    /// What they do, in words.
    pub desc: &'static str,
}

/// Every shortcut, category by category: where it works, its keys, what it does.
pub const BINDINGS: [(Context, &'static str, &'static str); 46] = [
    (Context::Global, "Shift+1", "Now Playing"),
    (Context::Global, "Shift+2", "vista Related"),
    (Context::Global, "Shift+3", "vista Búsqueda"),
    (Context::Global, "Shift+4", "vista Fuentes"),
    (Context::Global, "Shift+5", "vista Metadatos"),
    (Context::Global, "Shift+6", "vista Historial"),
    (Context::Global, "Shift+7", "vista Ajustes"),
    (Context::Global, "Shift+8", "vista Playlists"),
    (Context::Global, "Esc", "ir a Now Playing"),
    (Context::Global, "q", "salir de la app"),
    (Context::Global, "Ctrl+C", "salida forzosa"),
    (Context::Global, "Shift+H", "abrir esta ayuda"),
    (Context::Playback, "Espacio", "pausar/reanudar"),
    (Context::Playback, "Shift+D", "siguiente"),
    (Context::Playback, "Shift+A", "anterior"),
    (Context::Playback, "← / →", "-10s y +10s"),
    (Context::Playback, "l", "L1K3D canción"),
    (Context::Navigation, "w s ↑ ↓", "mover selección"),
    (Context::Navigation, "Enter", "abrir/reproducir"),
    (Context::Navigation, "ratón", "clic selecciona"),
    (Context::Queue, "a", "autoplay on/off"),
    (Context::Queue, "f", "aleatorio on/off"),
    (Context::Queue, "t", "repetición 3 modos"),
    (Context::Queue, "r", "renovar recomend."),
    (Context::Queue, "R", "renovar autoplay"),
    (Context::Search, "Enter", "buscar/reproducir"),
    (Context::Search, "↑ / ↓", "navegar resultados"),
    (Context::Search, "← / →", "mover cursor"),
    (Context::Search, "Inicio/Fin", "extremos"),
    (Context::Search, "Retro/Supr", "borrar"),
    (Context::Search, "Esc", "volver (guarda)"),
    (Context::Playlists, "n", "crear playlist"),
    (Context::Playlists, "Enter", "abrir/reproducir"),
    (Context::Playlists, "p", "reproducir cola"),
    (Context::Playlists, "d", "borrar playlist"),
    (Context::Playlists, "x", "quitar track"),
    (Context::Playlists, "u/Shift+D", "reordenar"),
    (Context::Playlists, "Esc", "volver"),
    (Context::Sources, "Shift+4", "fuentes activas"),
    (Context::Metadata, "Shift+5", "ver metadatos"),
    (Context::Metadata, "l", "marcar canción"),
    (Context::Settings, "Enter", "guardar cambios"),
    (Context::Settings, "Tab ↑ ↓", "cambiar campo"),
    (Context::Settings, "Retro/Supr", "borrar"),
    (Context::Settings, "Esc", "volver sin guardar"),
    (Context::Related, "v", "modo banda superior"),
];

/// The rows of the help, in the order of the table.
pub fn bindings() -> (r: Vec<KeyBinding>)
    ensures
        r@.len() == BINDINGS@.len(),
        forall|i: int|
            0 <= i < r@.len() ==> (#[trigger] r@[i]).context == BINDINGS@[i].0 && r@[i].keys
                == BINDINGS@[i].1 && r@[i].desc == BINDINGS@[i].2,
{
    let table = BINDINGS;
    let mut r: Vec<KeyBinding> = Vec::new();
    let mut i: usize = 0;
    while i < table.len()
        invariant
            0 <= i <= table@.len(),
            table == BINDINGS,
            r@.len() == i,
            forall|j: int|
                0 <= j < i ==> (#[trigger] r@[j]).context == BINDINGS@[j].0 && r@[j].keys
                    == BINDINGS@[j].1 && r@[j].desc == BINDINGS@[j].2,
        decreases table@.len() - i,
    {
        let (context, keys, desc) = table[i];
        r.push(KeyBinding { context, keys, desc });
        i = i + 1;
    }
    r
}

/// A category of the table: consecutive rows with the same context.
#[derive(Debug, Clone, Copy, PartialEq, Eq, Structural)]
pub struct Group {
    pub context: Context,
    pub start: usize,
    pub len: usize,
}

impl Group {
    /// Lines that the category takes: its heading and its rows.
    pub fn lines(self) -> (r: usize)
        requires
            self.len < usize::MAX,
        ensures
            r == group_lines(self),
    {
        1 + self.len
    }

    /// The rows of the category.
    pub fn rows(self) -> (r: core::ops::Range<usize>)
        requires
            self.start + self.len <= usize::MAX,
        ensures
            r.start == self.start,
            r.end == self.start + self.len,
    {
        self.start..self.start + self.len
    }
}

pub open spec fn group_lines(g: Group) -> nat {
    1 + g.len as nat
}

/// Lines that a list of categories takes.
pub open spec fn total_lines(groups: Seq<Group>) -> nat
    decreases groups.len(),
{
    if groups.len() == 0 {
        0
    } else {
        total_lines(groups.drop_last()) + group_lines(groups.last())
    }
}

/// The longest runs of equal contexts, from first to last.
pub open spec fn runs(contexts: Seq<Context>) -> Seq<Group>
    decreases contexts.len(),
{
    if contexts.len() == 0 {
        Seq::empty()
    } else {
        let before = runs(contexts.drop_last());
        let c = contexts.last();
        if before.len() > 0 && before.last().context == c {
            before.drop_last().push(
                Group { len: (before.last().len + 1) as usize, ..before.last() },
            )
        } else {
            before.push(Group { context: c, start: (contexts.len() - 1) as usize, len: 1 })
        }
    }
}

/// The contexts of the table, row by row.
pub open spec fn table_contexts() -> Seq<Context> {
    Seq::new(BINDINGS@.len(), |i: int| BINDINGS@[i].0)
}

/// The categories of the table, in its order.
pub fn groups() -> (out: Vec<Group>)
    ensures
        out@ == runs(table_contexts()),
{
    let table = BINDINGS;
    let mut out: Vec<Group> = Vec::new();
    let mut i: usize = 0;
    while i < table.len()
        invariant
            0 <= i <= table@.len(),
            table == BINDINGS,
            out@ == runs(table_contexts().take(i as int)),
            forall|j: int| 0 <= j < out@.len() ==> (#[trigger] out@[j]).len <= i,
        decreases table@.len() - i,
    {
        let context = table[i].0;
        proof {
            let next = table_contexts().take(i + 1);
            assert(next.drop_last() =~= table_contexts().take(i as int));
            assert(next.last() == context);
        }
        let n: usize = out.len();
        if n > 0 && out[n - 1].context == context {
            let last = out[n - 1];
            out.set(n - 1, Group { context: last.context, start: last.start, len: last.len + 1 });
            proof {
                assert(out@ =~= runs(table_contexts().take(i + 1)));
            }
        } else {
            out.push(Group { context, start: i, len: 1 });
        }
        i = i + 1;
    }
    proof {
        assert(table_contexts().take(table@.len() as int) =~= table_contexts());
    }
    out
}

/// Columns of the help on a profile.
pub fn columns_for(profile: TerminalProfile) -> (r: usize)
    ensures
        r == column_count(profile),
{
    match profile {
        TerminalProfile::Large | TerminalProfile::Medium => 3,
        TerminalProfile::Small => 2,
        TerminalProfile::Tiny => 1,
    }
}

pub open spec fn column_count(profile: TerminalProfile) -> nat {
    match profile {
        TerminalProfile::Large | TerminalProfile::Medium => 3,
        TerminalProfile::Small => 2,
        TerminalProfile::Tiny => 1,
    }
}

/// Categories laid out in columns: what each column holds, the column that is
/// being filled, and what fitted nowhere.
#[verifier::ext_equal]
pub struct Packing {
    pub cols: Seq<Seq<Group>>,
    pub at: nat,
    pub dropped: Seq<Group>,
}

/// The first column, from `from` on, with room for `lines` more lines.
pub open spec fn first_fit(cols: Seq<Seq<Group>>, from: nat, lines: nat, cap: nat) -> nat
    decreases cols.len() - from,
{
    if from < cols.len() && total_lines(cols[from as int]) + lines > cap {
        first_fit(cols, from + 1, lines, cap)
    } else {
        from
    }
}

/// Adds one category: to the column being filled, or to the first later one
/// that has room. A column that was left is not taken up again.
pub open spec fn pack_one(p: Packing, g: Group, cap: nat) -> Packing {
    let c = first_fit(p.cols, p.at, group_lines(g), cap);
    if c < p.cols.len() {
        Packing { cols: p.cols.update(c as int, p.cols[c as int].push(g)), at: c, ..p }
    } else {
        Packing { at: c, dropped: p.dropped.push(g), ..p }
    }
}

/// The categories in `ncols` columns of `cap` lines, filled one after the other.
pub open spec fn packing(groups: Seq<Group>, cap: nat, ncols: nat) -> Packing
    decreases groups.len(),
{
    if groups.len() == 0 {
        Packing {
            cols: Seq::new(ncols, |i: int| Seq::<Group>::empty()),
            at: 0,
            dropped: Seq::empty(),
        }
    } else {
        pack_one(packing(groups.drop_last(), cap, ncols), groups.last(), cap)
    }
}

/// What each column holds.
pub open spec fn column_view(cols: Seq<Vec<Group>>) -> Seq<Seq<Group>> {
    cols.map_values(|c: Vec<Group>| c@)
}

/// Lays the categories out in `ncols` columns of `column_lines` lines without
/// splitting any: the columns, and the categories that fit nowhere. A single
/// column takes them all.
pub fn pack_groups(groups: &Vec<Group>, column_lines: usize, ncols: usize) -> (r: (
    Vec<Vec<Group>>,
    Vec<Group>,
))
    requires
        forall|i: int|
            0 <= i < groups@.len() ==> column_lines + group_lines(#[trigger] groups@[i])
                <= usize::MAX,
    ensures
        ncols == 1 ==> column_view(r.0@) == seq![groups@] && r.1@ == Seq::<Group>::empty(),
        ncols != 1 ==> {
            let p = packing(groups@, column_lines as nat, ncols as nat);
            column_view(r.0@) == p.cols && r.1@ == p.dropped
        },
{
    if ncols == 1 {
        let mut all: Vec<Group> = Vec::new();
        let mut i: usize = 0;
        while i < groups.len()
            invariant
                0 <= i <= groups.len(),
                all@ == groups@.take(i as int),
            decreases groups.len() - i,
        {
            all.push(groups[i]);
            proof {
                assert(groups@.take(i + 1) =~= groups@.take(i as int).push(groups@[i as int]));
            }
            i = i + 1;
        }
        proof {
            assert(groups@.take(groups.len() as int) =~= groups@);
        }
        let mut cols: Vec<Vec<Group>> = Vec::new();
        cols.push(all);
        proof {
            assert(column_view(cols@) =~= seq![groups@]);
        }
        return (cols, Vec::new());
    }
    let mut cols: Vec<Vec<Group>> = Vec::new();
    let mut heights: Vec<usize> = Vec::new();
    let mut k: usize = 0;
    while k < ncols
        invariant
            0 <= k <= ncols,
            cols@.len() == k,
            heights@.len() == k,
            forall|c: int| 0 <= c < k ==> (#[trigger] cols@[c])@ == Seq::<Group>::empty(),
            forall|c: int| 0 <= c < k ==> #[trigger] heights@[c] == 0,
        decreases ncols - k,
    {
        cols.push(Vec::new());
        heights.push(0);
        k = k + 1;
    }
    let mut dropped: Vec<Group> = Vec::new();
    let mut at: usize = 0;
    let mut i: usize = 0;
    proof {
        assert(groups@.take(0) =~= Seq::<Group>::empty());
        assert(column_view(cols@) =~= packing(
            groups@.take(0),
            column_lines as nat,
            ncols as nat,
        ).cols);
    }
    while i < groups.len()
        invariant
            0 <= i <= groups.len(),
            forall|j: int|
                0 <= j < groups@.len() ==> column_lines + group_lines(#[trigger] groups@[j])
                    <= usize::MAX,
            cols@.len() == ncols,
            heights@.len() == ncols,
            at <= ncols,
            forall|c: int|
                0 <= c < ncols ==> #[trigger] heights@[c] == total_lines(cols@[c]@)
                    && heights@[c] <= column_lines,
            ({
                let p = packing(groups@.take(i as int), column_lines as nat, ncols as nat);
                column_view(cols@) == p.cols && at == p.at && dropped@ == p.dropped
            }),
        decreases groups.len() - i,
    {
        let g = groups[i];
        let lines: usize = g.lines();
        let ghost before = packing(groups@.take(i as int), column_lines as nat, ncols as nat);
        proof {
            assert(groups@.take(i + 1).drop_last() =~= groups@.take(i as int));
            assert(groups@.take(i + 1).last() == g);
        }
        while at < ncols && heights[at] + lines > column_lines
            invariant
                at <= ncols,
                heights@.len() == ncols,
                cols@.len() == ncols,
                lines == group_lines(g),
                column_lines + lines <= usize::MAX,
                column_view(cols@) == before.cols,
                forall|c: int|
                    0 <= c < ncols ==> #[trigger] heights@[c] == total_lines(cols@[c]@)
                        && heights@[c] <= column_lines,
                first_fit(before.cols, at as nat, lines as nat, column_lines as nat) == first_fit(
                    before.cols,
                    before.at,
                    lines as nat,
                    column_lines as nat,
                ),
            decreases ncols - at,
        {
            assert(before.cols[at as int] == cols@[at as int]@);
            at = at + 1;
        }
        if at < ncols {
            assert(before.cols[at as int] == cols@[at as int]@);
            let ghost old_col = cols@[at as int]@;
            let ghost old_cols = cols@;
            let mut col: Vec<Group> = cols[at].clone();
            proof {
                assert(col@ =~= old_col);
            }
            col.push(g);
            proof {
                assert(old_col.push(g).drop_last() =~= old_col);
            }
            cols.set(at, col);
            heights.set(at, heights[at] + lines);
            proof {
                assert(column_view(cols@) =~= before.cols.update(at as int, old_col.push(g)));
            }
        } else {
            dropped.push(g);
        }
        i = i + 1;
    }
    proof {
        assert(groups@.take(groups.len() as int) =~= groups@);
    }
    (cols, dropped)
}

/// A line of the help: the heading of a category, or a row of the table.
#[derive(Debug, Clone, Copy, PartialEq, Eq, Structural)]
pub enum HelpLine {
    Heading(Context),
    Row(usize),
}

/// The lines of one category.
pub open spec fn category_lines(g: Group) -> Seq<HelpLine> {
    seq![HelpLine::Heading(g.context)] + Seq::new(
        g.len as nat,
        |i: int| HelpLine::Row((g.start + i) as usize),
    )
}

/// The lines of a column, category by category.
pub open spec fn column_text(col: Seq<Group>) -> Seq<HelpLine>
    decreases col.len(),
{
    if col.len() == 0 {
        Seq::empty()
    } else {
        column_text(col.drop_last()) + category_lines(col.last())
    }
}

/// The lines of a column.
pub fn column_help(col: &Vec<Group>) -> (r: Vec<HelpLine>)
    requires
        forall|i: int|
            0 <= i < col@.len() ==> (#[trigger] col@[i]).start + col@[i].len <= usize::MAX,
    ensures
        r@ == column_text(col@),
{
    let mut r: Vec<HelpLine> = Vec::new();
    let mut i: usize = 0;
    while i < col.len()
        invariant
            0 <= i <= col.len(),
            forall|j: int|
                0 <= j < col@.len() ==> (#[trigger] col@[j]).start + col@[j].len <= usize::MAX,
            r@ == column_text(col@.take(i as int)),
        decreases col.len() - i,
    {
        let g = col[i];
        let ghost before = r@;
        r.push(HelpLine::Heading(g.context));
        let mut k: usize = 0;
        while k < g.len
            invariant
                0 <= k <= g.len,
                g.start + g.len <= usize::MAX,
                r@ == before + category_lines(g).take(1 + k),
            decreases g.len - k,
        {
            r.push(HelpLine::Row(g.start + k));
            proof {
                assert(category_lines(g).take(2 + k) =~= category_lines(g).take(1 + k).push(
                    category_lines(g)[1 + k],
                ));
                assert(r@ =~= before + category_lines(g).take(2 + k));
            }
            k = k + 1;
        }
        proof {
            assert(category_lines(g).take(1 + g.len) =~= category_lines(g));
            assert(col@.take(i + 1).drop_last() =~= col@.take(i as int));
            assert(col@.take(i + 1).last() == g);
        }
        i = i + 1;
    }
    proof {
        assert(col@.take(col.len() as int) =~= col@);
    }
    r
}

/// The hint at the foot of the help, on profiles with room for it.
pub fn closing_hint(profile: TerminalProfile, glyphs: UiGlyphs) -> (r: Option<String>)
    ensures
        r is Some <==> (profile == TerminalProfile::Large || profile == TerminalProfile::Medium),
        r is Some ==> r->0@ == crate::glyphs::glyph(glyphs.theme, "›"@, ">"@)
            + " cualquier tecla cierra · Shift+1..8 cambia de vista"@,
{
    match profile {
        TerminalProfile::Large | TerminalProfile::Medium => {
            let mut s: String = glyphs.status().to_string();
            s.append(" cualquier tecla cierra · Shift+1..8 cambia de vista");
            Some(s)
        },
        TerminalProfile::Small | TerminalProfile::Tiny => None,
    }
}

/// All columns one after the other.
pub open spec fn flattened(cols: Seq<Seq<Group>>) -> Seq<Group>
    decreases cols.len(),
{
    if cols.len() == 0 {
        Seq::empty()
    } else {
        flattened(cols.drop_last()) + cols.last()
    }
}

proof fn lemma_first_fit(cols: Seq<Seq<Group>>, from: nat, lines: nat, cap: nat)
    requires
        from <= cols.len(),
    ensures
        from <= first_fit(cols, from, lines, cap) <= cols.len(),
        first_fit(cols, from, lines, cap) < cols.len() ==> total_lines(
            cols[first_fit(cols, from, lines, cap) as int],
        ) + lines <= cap,
    decreases cols.len() - from,
{
    if from < cols.len() && total_lines(cols[from as int]) + lines > cap {
        lemma_first_fit(cols, from + 1, lines, cap);
    }
}

proof fn lemma_flattened_empty_tail(cols: Seq<Seq<Group>>, n: nat)
    requires
        n <= cols.len(),
        forall|c: int| n <= c < cols.len() ==> (#[trigger] cols[c]).len() == 0,
    ensures
        flattened(cols) == flattened(cols.take(n as int)),
    decreases cols.len(),
{
    if n < cols.len() {
        assert(cols.drop_last().take(n as int) =~= cols.take(n as int));
        lemma_flattened_empty_tail(cols.drop_last(), n);
        assert(flattened(cols) =~= flattened(cols.drop_last()));
    } else {
        assert(cols.take(n as int) =~= cols);
    }
}

/// The columns of a packing, and what each step keeps of them.
proof fn lemma_packing(groups: Seq<Group>, cap: nat, ncols: nat)
    ensures
        ({
            let p = packing(groups, cap, ncols);
            &&& p.cols.len() == ncols
            &&& p.at <= ncols
            &&& forall|c: int| p.at < c < ncols ==> (#[trigger] p.cols[c]).len() == 0
            &&& p.dropped.len() > 0 ==> p.at == ncols
            &&& forall|c: int| 0 <= c < ncols ==> total_lines(#[trigger] p.cols[c]) <= cap
            &&& flattened(p.cols) + p.dropped == groups
        }),
    decreases groups.len(),
{
    let p = packing(groups, cap, ncols);
    if groups.len() == 0 {
        lemma_flattened_empty_tail(p.cols, 0);
        assert(flattened(p.cols) + p.dropped =~= groups);
    } else {
        let before = packing(groups.drop_last(), cap, ncols);
        let g = groups.last();
        lemma_packing(groups.drop_last(), cap, ncols);
        lemma_first_fit(before.cols, before.at, group_lines(g), cap);
        let c = first_fit(before.cols, before.at, group_lines(g), cap);
        assert(groups =~= groups.drop_last().push(g));
        if c < ncols {
            assert(before.cols[c as int].push(g).drop_last() =~= before.cols[c as int]);
            lemma_flattened_empty_tail(p.cols, c + 1);
            lemma_flattened_empty_tail(before.cols, c + 1);
            let head = p.cols.take((c + 1) as int);
            let old_head = before.cols.take((c + 1) as int);
            assert(head.drop_last() =~= old_head.drop_last());
            assert(head.last() == old_head.last().push(g));
            assert(flattened(head) =~= flattened(old_head).push(g));
            assert(flattened(p.cols) + p.dropped =~= groups);
        } else {
            assert(flattened(p.cols) + p.dropped =~= groups);
        }
    }
}

/// Packing loses, repeats and reorders nothing, splits no category, and fills
/// no column beyond its height. What fits nowhere is dropped whole, from the
/// end of the table.
pub proof fn law_packing_keeps_whole_categories(groups: Seq<Group>, cap: nat, ncols: nat)
    ensures
        ({
            let p = packing(groups, cap, ncols);
            &&& p.cols.len() == ncols
            &&& flattened(p.cols) + p.dropped == groups
            &&& forall|c: int| 0 <= c < ncols ==> total_lines(#[trigger] p.cols[c]) <= cap
        }),
{
    lemma_packing(groups, cap, ncols);
}

proof fn lemma_runs_extend(prefix: Seq<Context>, c: Context, n: nat)
    requires
        n > 0,
        prefix.len() + n <= usize::MAX,
        prefix.len() > 0 ==> prefix.last() != c,
    ensures
        runs(prefix + Seq::new(n, |i: int| c)) == runs(prefix).push(
            Group { context: c, start: prefix.len() as usize, len: n as usize },
        ),
    decreases n,
{
    let s = prefix + Seq::new(n, |i: int| c);
    let shorter = prefix + Seq::new((n - 1) as nat, |i: int| c);
    assert(s.drop_last() =~= shorter);
    assert(s.last() == c);
    if n == 1 {
        assert(shorter =~= prefix);
        lemma_runs_last(prefix);
    } else {
        lemma_runs_extend(prefix, c, (n - 1) as nat);
        let before = runs(shorter);
        assert(runs(s) =~= runs(prefix).push(
            Group { context: c, start: prefix.len() as usize, len: n as usize },
        ));
    }
}

proof fn lemma_runs_last(s: Seq<Context>)
    ensures
        s.len() > 0 ==> runs(s).len() > 0 && runs(s).last().context == s.last(),
        s.len() == 0 ==> runs(s).len() == 0,
    decreases s.len(),
{
    if s.len() > 0 {
        lemma_runs_last(s.drop_last());
    }
}

/// The categories of the table, with their rows.
pub open spec fn table_groups() -> Seq<Group> {
    seq![
        Group { context: Context::Global, start: 0, len: 12 },
        Group { context: Context::Playback, start: 12, len: 5 },
        Group { context: Context::Navigation, start: 17, len: 3 },
        Group { context: Context::Queue, start: 20, len: 5 },
        Group { context: Context::Search, start: 25, len: 6 },
        Group { context: Context::Playlists, start: 31, len: 7 },
        Group { context: Context::Sources, start: 38, len: 1 },
        Group { context: Context::Metadata, start: 39, len: 2 },
        Group { context: Context::Settings, start: 41, len: 4 },
        Group { context: Context::Related, start: 45, len: 1 },
    ]
}

/// The rows of every category are consecutive, and the categories cover the table.
pub proof fn law_table_is_grouped()
    ensures
        runs(table_contexts()) == table_groups(),
{
    let none = Seq::<Context>::empty();
    lemma_runs_extend(none, Context::Global, 12);
    let c0 = none + Seq::new(12, |i: int| Context::Global);
    lemma_runs_extend(c0, Context::Playback, 5);
    let c1 = c0 + Seq::new(5, |i: int| Context::Playback);
    lemma_runs_extend(c1, Context::Navigation, 3);
    let c2 = c1 + Seq::new(3, |i: int| Context::Navigation);
    lemma_runs_extend(c2, Context::Queue, 5);
    let c3 = c2 + Seq::new(5, |i: int| Context::Queue);
    lemma_runs_extend(c3, Context::Search, 6);
    let c4 = c3 + Seq::new(6, |i: int| Context::Search);
    lemma_runs_extend(c4, Context::Playlists, 7);
    let c5 = c4 + Seq::new(7, |i: int| Context::Playlists);
    lemma_runs_extend(c5, Context::Sources, 1);
    let c6 = c5 + Seq::new(1, |i: int| Context::Sources);
    lemma_runs_extend(c6, Context::Metadata, 2);
    let c7 = c6 + Seq::new(2, |i: int| Context::Metadata);
    lemma_runs_extend(c7, Context::Settings, 4);
    let c8 = c7 + Seq::new(4, |i: int| Context::Settings);
    lemma_runs_extend(c8, Context::Related, 1);
    let c9 = c8 + Seq::new(1, |i: int| Context::Related);
    assert(c9 =~= table_contexts());
    assert(runs(none) =~= Seq::<Group>::empty());
    assert(runs(table_contexts()) =~= table_groups());
}

/// The column being filled and its height after `lines` more lines.
spec fn walk(at: nat, height: nat, lines: nat, cap: nat) -> (nat, nat) {
    if height + lines <= cap {
        (at, height + lines)
    } else {
        (at + 1, lines)
    }
}

proof fn lemma_walk(groups: Seq<Group>, g: Group, cap: nat, ncols: nat, height: nat)
    requires
        ({
            let p = packing(groups, cap, ncols);
            &&& p.at < ncols
            &&& p.dropped.len() == 0
            &&& total_lines(p.cols[p.at as int]) == height
            &&& group_lines(g) <= cap
            &&& walk(p.at, height, group_lines(g), cap).0 < ncols
        }),
    ensures
        ({
            let p = packing(groups, cap, ncols);
            let q = packing(groups.push(g), cap, ncols);
            &&& q.dropped.len() == 0
            &&& q.at == walk(p.at, height, group_lines(g), cap).0
            &&& total_lines(q.cols[q.at as int]) == walk(p.at, height, group_lines(g), cap).1
        }),
{
    let p = packing(groups, cap, ncols);
    lemma_packing(groups, cap, ncols);
    assert(groups.push(g).drop_last() =~= groups);
    let c = first_fit(p.cols, p.at, group_lines(g), cap);
    if height + group_lines(g) > cap {
        assert(p.cols[(p.at + 1) as int].len() == 0);
        assert(total_lines(p.cols[(p.at + 1) as int]) == 0);
        assert(first_fit(p.cols, p.at + 1, group_lines(g), cap) == p.at + 1);
    }
    assert(p.cols[c as int].push(g).drop_last() =~= p.cols[c as int]);
    assert(total_lines(p.cols[c as int].push(g)) == total_lines(p.cols[c as int]) + group_lines(g));
}

/// Columns of 22 lines or more, three of them, hold the whole table: nothing is
/// left out on the roomy profiles.
pub proof fn law_roomy_help_shows_everything(cap: nat)
    requires
        cap >= 22,
    ensures
        packing(table_groups(), cap, 3).dropped.len() == 0,
{
    let t = table_groups();
    let s0 = Seq::<Group>::empty();
    assert(total_lines(Seq::<Group>::empty()) == 0);
    let h0 = 0nat;
    let s1 = s0.push(t[0]);
    let s2 = s1.push(t[1]);
    let s3 = s2.push(t[2]);
    let s4 = s3.push(t[3]);
    let s5 = s4.push(t[4]);
    let s6 = s5.push(t[5]);
    let s7 = s6.push(t[6]);
    let s8 = s7.push(t[7]);
    let s9 = s8.push(t[8]);
    let s10 = s9.push(t[9]);
    lemma_walk(s0, t[0], cap, 3, h0);
    let h1 = walk(packing(s0, cap, 3).at, h0, group_lines(t[0]), cap).1;
    lemma_walk(s1, t[1], cap, 3, h1);
    let h2 = walk(packing(s1, cap, 3).at, h1, group_lines(t[1]), cap).1;
    lemma_walk(s2, t[2], cap, 3, h2);
    let h3 = walk(packing(s2, cap, 3).at, h2, group_lines(t[2]), cap).1;
    lemma_walk(s3, t[3], cap, 3, h3);
    let h4 = walk(packing(s3, cap, 3).at, h3, group_lines(t[3]), cap).1;
    lemma_walk(s4, t[4], cap, 3, h4);
    let h5 = walk(packing(s4, cap, 3).at, h4, group_lines(t[4]), cap).1;
    lemma_walk(s5, t[5], cap, 3, h5);
    let h6 = walk(packing(s5, cap, 3).at, h5, group_lines(t[5]), cap).1;
    lemma_walk(s6, t[6], cap, 3, h6);
    let h7 = walk(packing(s6, cap, 3).at, h6, group_lines(t[6]), cap).1;
    lemma_walk(s7, t[7], cap, 3, h7);
    let h8 = walk(packing(s7, cap, 3).at, h7, group_lines(t[7]), cap).1;
    lemma_walk(s8, t[8], cap, 3, h8);
    let h9 = walk(packing(s8, cap, 3).at, h8, group_lines(t[8]), cap).1;
    lemma_walk(s9, t[9], cap, 3, h9);
    let h10 = walk(packing(s9, cap, 3).at, h9, group_lines(t[9]), cap).1;
    assert(s10 =~= t);
}

/// Characters of a row of the help: keys, two spaces, description.
pub open spec fn row_width(i: int) -> nat {
    BINDINGS@[i].1@.len() + 2 + BINDINGS@[i].2@.len()
}

/// No row is wider than the slimmest of three columns on 80 cells.
pub proof fn law_every_row_fits_its_column(i: int)
    requires
        0 <= i < BINDINGS@.len(),
    ensures
        row_width(i) <= 25,
{
    reveal_strlit("Shift+1");
    reveal_strlit("Now Playing");
    reveal_strlit("Shift+2");
    reveal_strlit("vista Related");
    reveal_strlit("Shift+3");
    reveal_strlit("vista Búsqueda");
    reveal_strlit("Shift+4");
    reveal_strlit("vista Fuentes");
    reveal_strlit("Shift+5");
    reveal_strlit("vista Metadatos");
    reveal_strlit("Shift+6");
    reveal_strlit("vista Historial");
    reveal_strlit("Shift+7");
    reveal_strlit("vista Ajustes");
    reveal_strlit("Shift+8");
    reveal_strlit("vista Playlists");
    reveal_strlit("Esc");
    reveal_strlit("ir a Now Playing");
    reveal_strlit("q");
    reveal_strlit("salir de la app");
    reveal_strlit("Ctrl+C");
    reveal_strlit("salida forzosa");
    reveal_strlit("Shift+H");
    reveal_strlit("abrir esta ayuda");
    reveal_strlit("Espacio");
    reveal_strlit("pausar/reanudar");
    reveal_strlit("Shift+D");
    reveal_strlit("siguiente");
    reveal_strlit("Shift+A");
    reveal_strlit("anterior");
    reveal_strlit("← / →");
    reveal_strlit("-10s y +10s");
    reveal_strlit("l");
    reveal_strlit("L1K3D canción");
    reveal_strlit("w s ↑ ↓");
    reveal_strlit("mover selección");
    reveal_strlit("Enter");
    reveal_strlit("abrir/reproducir");
    reveal_strlit("ratón");
    reveal_strlit("clic selecciona");
    reveal_strlit("a");
    reveal_strlit("autoplay on/off");
    reveal_strlit("f");
    reveal_strlit("aleatorio on/off");
    reveal_strlit("t");
    reveal_strlit("repetición 3 modos");
    reveal_strlit("r");
    reveal_strlit("renovar recomend.");
    reveal_strlit("R");
    reveal_strlit("renovar autoplay");
    reveal_strlit("buscar/reproducir");
    reveal_strlit("↑ / ↓");
    reveal_strlit("navegar resultados");
    reveal_strlit("mover cursor");
    reveal_strlit("Inicio/Fin");
    reveal_strlit("extremos");
    reveal_strlit("Retro/Supr");
    reveal_strlit("borrar");
    reveal_strlit("volver (guarda)");
    reveal_strlit("n");
    reveal_strlit("crear playlist");
    reveal_strlit("p");
    reveal_strlit("reproducir cola");
    reveal_strlit("d");
    reveal_strlit("borrar playlist");
    reveal_strlit("x");
    reveal_strlit("quitar track");
    reveal_strlit("u/Shift+D");
    reveal_strlit("reordenar");
    reveal_strlit("volver");
    reveal_strlit("fuentes activas");
    reveal_strlit("ver metadatos");
    reveal_strlit("marcar canción");
    reveal_strlit("guardar cambios");
    reveal_strlit("Tab ↑ ↓");
    reveal_strlit("cambiar campo");
    reveal_strlit("volver sin guardar");
    reveal_strlit("v");
    reveal_strlit("modo banda superior");
    assert(row_width(0) <= 25);
    assert(row_width(1) <= 25);
    assert(row_width(2) <= 25);
    assert(row_width(3) <= 25);
    assert(row_width(4) <= 25);
    assert(row_width(5) <= 25);
    assert(row_width(6) <= 25);
    assert(row_width(7) <= 25);
    assert(row_width(8) <= 25);
    assert(row_width(9) <= 25);
    assert(row_width(10) <= 25);
    assert(row_width(11) <= 25);
    assert(row_width(12) <= 25);
    assert(row_width(13) <= 25);
    assert(row_width(14) <= 25);
    assert(row_width(15) <= 25);
    assert(row_width(16) <= 25);
    assert(row_width(17) <= 25);
    assert(row_width(18) <= 25);
    assert(row_width(19) <= 25);
    assert(row_width(20) <= 25);
    assert(row_width(21) <= 25);
    assert(row_width(22) <= 25);
    assert(row_width(23) <= 25);
    assert(row_width(24) <= 25);
    assert(row_width(25) <= 25);
    assert(row_width(26) <= 25);
    assert(row_width(27) <= 25);
    assert(row_width(28) <= 25);
    assert(row_width(29) <= 25);
    assert(row_width(30) <= 25);
    assert(row_width(31) <= 25);
    assert(row_width(32) <= 25);
    assert(row_width(33) <= 25);
    assert(row_width(34) <= 25);
    assert(row_width(35) <= 25);
    assert(row_width(36) <= 25);
    assert(row_width(37) <= 25);
    assert(row_width(38) <= 25);
    assert(row_width(39) <= 25);
    assert(row_width(40) <= 25);
    assert(row_width(41) <= 25);
    assert(row_width(42) <= 25);
    assert(row_width(43) <= 25);
    assert(row_width(44) <= 25);
    assert(row_width(45) <= 25);
}

/// How far a packing has come: the columns behind the current one are empty, no
/// column was left while the next category still fitted, and nothing was left
/// out before the last column was full.
spec fn fills_in_order(p: Packing, cap: nat) -> bool {
    let n = p.cols.len() as int;
    &&& p.at <= n
    &&& forall|c: int| p.at < c < n ==> (#[trigger] p.cols[c]).len() == 0
    &&& forall|c: int|
        0 < c < n && (#[trigger] p.cols[c]).len() > 0 ==> total_lines(p.cols[c - 1]) + group_lines(
            p.cols[c][0],
        ) > cap
    &&& p.dropped.len() > 0 ==> p.at == n && (n > 0 ==> total_lines(p.cols[n - 1]) + group_lines(
        p.dropped[0],
    ) > cap)
}

proof fn lemma_skipped_are_full(cols: Seq<Seq<Group>>, from: nat, lines: nat, cap: nat)
    requires
        from <= cols.len(),
    ensures
        ({
            let c = first_fit(cols, from, lines, cap);
            &&& from <= c <= cols.len()
            &&& forall|k: int| from <= k < c ==> total_lines(#[trigger] cols[k]) + lines > cap
            &&& c < cols.len() ==> total_lines(cols[c as int]) + lines <= cap
        }),
    decreases cols.len() - from,
{
    if from < cols.len() && total_lines(cols[from as int]) + lines > cap {
        lemma_skipped_are_full(cols, from + 1, lines, cap);
    }
}

proof fn lemma_fills_in_order(groups: Seq<Group>, cap: nat, ncols: nat)
    ensures
        fills_in_order(packing(groups, cap, ncols), cap),
        packing(groups, cap, ncols).cols.len() == ncols,
    decreases groups.len(),
{
    if groups.len() > 0 {
        let p = packing(groups.drop_last(), cap, ncols);
        let g = groups.last();
        lemma_fills_in_order(groups.drop_last(), cap, ncols);
        lemma_skipped_are_full(p.cols, p.at, group_lines(g), cap);
        let q = pack_one(p, g, cap);
        let c = q.at as int;
        if c < ncols {
            assert forall|k: int| 0 < k < ncols && (#[trigger] q.cols[k]).len() > 0 implies total_lines(
                q.cols[k - 1],
            ) + group_lines(q.cols[k][0]) > cap by {
                if k == c {
                    if p.cols[k].len() == 0 {
                        assert(p.at < c || k == p.at);
                        if p.at < c {
                            assert(total_lines(p.cols[k - 1]) + group_lines(g) > cap);
                        } else {
                            lemma_reached(groups.drop_last(), cap, ncols);
                        }
                    } else {
                        assert(q.cols[k][0] == p.cols[k][0]);
                    }
                } else if k - 1 == c {
                    assert(p.cols[k].len() == 0);
                }
            }
        }
    }
}

/// A packing stands at a column that holds something, or at the first one, or
/// behind the last one.
proof fn lemma_reached(groups: Seq<Group>, cap: nat, ncols: nat)
    ensures
        ({
            let p = packing(groups, cap, ncols);
            &&& p.cols.len() == ncols
            &&& p.at <= ncols
            &&& 0 < p.at < ncols ==> p.cols[p.at as int].len() > 0
        }),
    decreases groups.len(),
{
    if groups.len() > 0 {
        let p = packing(groups.drop_last(), cap, ncols);
        lemma_reached(groups.drop_last(), cap, ncols);
        lemma_skipped_are_full(p.cols, p.at, group_lines(groups.last()), cap);
    }
}

/// The columns are filled one after the other: a category goes to the next column
/// only if it does not fit any more, and is left out only if it does not fit into
/// the last one. What fits in the first column alone is all there.
pub proof fn law_columns_are_filled_in_order(groups: Seq<Group>, cap: nat, ncols: nat, c: int)
    ensures
        ({
            let p = packing(groups, cap, ncols);
            &&& 0 < c < ncols && p.cols[c].len() > 0 ==> total_lines(p.cols[c - 1]) + group_lines(
                p.cols[c][0],
            ) > cap
            &&& ncols > 0 && p.dropped.len() > 0 ==> total_lines(p.cols[ncols - 1]) + group_lines(
                p.dropped[0],
            ) > cap
            &&& ncols > 0 && total_lines(groups) <= cap ==> p.cols[0] == groups && p.dropped.len()
                == 0
        }),
{
    lemma_fills_in_order(groups, cap, ncols);
    if ncols > 0 && total_lines(groups) <= cap {
        lemma_all_in_the_first(groups, cap, ncols);
    }
}

proof fn lemma_all_in_the_first(groups: Seq<Group>, cap: nat, ncols: nat)
    requires
        ncols > 0,
        total_lines(groups) <= cap,
    ensures
        ({
            let p = packing(groups, cap, ncols);
            p.at == 0 && p.cols.len() == ncols && p.cols[0] == groups && p.dropped.len() == 0
        }),
    decreases groups.len(),
{
    if groups.len() > 0 {
        lemma_all_in_the_first(groups.drop_last(), cap, ncols);
        assert(groups.drop_last().push(groups.last()) =~= groups);
    } else {
        assert(packing(groups, cap, ncols).cols[0] =~= groups);
    }
}

proof fn lemma_column_joins(a: Seq<Group>, b: Seq<Group>)
    ensures
        column_text(a + b) == column_text(a) + column_text(b),
    decreases b.len(),
{
    if b.len() == 0 {
        assert(a + b =~= a);
        assert(column_text(a) + column_text(b) =~= column_text(a));
    } else {
        lemma_column_joins(a, b.drop_last());
        assert((a + b).drop_last() =~= a + b.drop_last());
        assert(column_text(a + b) =~= column_text(a) + column_text(b));
    }
}

/// A column shows its categories one below the other, each as its heading and
/// then its rows in the order of the table.
pub proof fn law_columns_show_their_categories(before: Seq<Group>, g: Group, after: Seq<Group>, i: int)
    requires
        g.start + g.len <= usize::MAX,
        0 <= i < g.len,
    ensures
        ({
            let text = column_text(before + seq![g] + after);
            let at = column_text(before).len();
            &&& text.len() == at + 1 + g.len + column_text(after).len()
            &&& text[at as int] == HelpLine::Heading(g.context)
            &&& text[at + 1 + i] == HelpLine::Row((g.start + i) as usize)
        }),
{
    lemma_column_joins(before + seq![g], after);
    lemma_column_joins(before, seq![g]);
    let one = seq![g];
    assert(one.drop_last() =~= Seq::<Group>::empty());
    assert(column_text(one.drop_last()) =~= Seq::<HelpLine>::empty());
    assert(column_text(one) == column_text(one.drop_last()) + category_lines(one.last()));
    assert(column_text(one) =~= category_lines(g));
}

/// A wider terminal shows the help in more columns: three from a medium one on, two
/// in a small one, one in a tiny one. In one column everything is shown.
pub proof fn law_help_has_columns(
    profile: TerminalProfile,
    columns: usize,
    all: Vec<Group>,
    lines: usize,
    packed: (Vec<Vec<Group>>, Vec<Group>),
)
    requires
        call_ensures(columns_for, (profile,), columns),
        call_ensures(pack_groups, (&all, lines, 1), packed),
    ensures
        profile is Large || profile is Medium <==> columns == 3,
        profile is Small <==> columns == 2,
        profile is Tiny <==> columns == 1,
        packed.0@.len() == 1,
        packed.0@[0]@ == all@,
        packed.1@.len() == 0,
{
    assert(column_view(packed.0@).len() == 1);
    assert(column_view(packed.0@)[0] == packed.0@[0]@);
}

/// The groups are packed by the rules of the columns, and the table is what is
/// packed: each binding has its place in it.
pub proof fn law_help_follows_the_rules(
    all: Vec<Group>,
    lines: usize,
    n: usize,
    packed: (Vec<Vec<Group>>, Vec<Group>),
    table: Vec<Group>,
    col: Vec<Group>,
    text: Vec<HelpLine>,
)
    requires
        n != 1,
        call_ensures(pack_groups, (&all, lines, n), packed),
        call_ensures(groups, (), table),
        call_ensures(column_help, (&col,), text),
    ensures
        column_view(packed.0@) == packing(all@, lines as nat, n as nat).cols,
        packed.1@ == packing(all@, lines as nat, n as nat).dropped,
        table@ == table_groups(),
        text@ == column_text(col@),
{
    law_table_is_grouped();
}

} // verus!
