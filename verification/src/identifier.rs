//! Identifying the game that the focused window belongs to, from a catalog
//! of identifiable games.
use vstd::prelude::*;
use crate::schema::ObjectId;
use crate::text::{
    chars_of, contains, contains_chars, contains_spec, extend_chars, join, join_spec, lemma_lines_step,
    line_end, lines_spec, slice_chars, starts_with_chars, starts_with_spec, string_from_chars,
    strip_cr_exec, views,
};

verus! {

/// An executable that a game runs as, with arguments that its command line holds.
#[derive(Debug)]
pub struct Executable {
    pub binary: String,
    pub arguments: Vec<String>,
}

/// An entry of the catalog of games that can be identified.
#[derive(Debug)]
pub struct IdentifiableGame {
    pub id: u64,
    pub name: String,
    pub classes: Vec<String>,
    pub title_substring: Option<String>,
    pub executables: Vec<Executable>,
}

/// What a window manager reports of the focused window.
#[derive(Debug)]
pub struct Window {
    pub class: String,
    pub title: String,
    pub executable: Option<String>,
    pub cmdline: Vec<String>,
    pub fullscreen: bool,
}

/// The catalog entry at position `id`, when the catalog has been loaded and
/// holds that many entries.
pub fn get_game(games: Option<&Vec<IdentifiableGame>>, id: ObjectId) -> (r: Option<&IdentifiableGame>)
    ensures
        match games {
            None => r is None,
            Some(g) => if id < g@.len() {
                r == Some(&g@[id as int])
            } else {
                r is None
            },
        },
{
    match games {
        None => None,
        Some(g) => {
            if id < g.len() as u64 {
                Some(&g[id as usize])
            } else {
                None
            }
        },
    }
}

/// The whole catalog; it must have been loaded.
pub fn get_all_games(games: Option<&Vec<IdentifiableGame>>) -> (r: &Vec<IdentifiableGame>)
    requires
        games is Some,
    ensures
        r == games->0,
{
    match games {
        Some(g) => g,
        None => {
            assert(false);
            unreached()
        },
    }
}

} // verus!

verus! {

/// Whether executable entry `e` describes the process `exe` whose command
/// line, joined with spaces, is `args`.
pub open spec fn exe_matches(e: Executable, exe: Seq<char>, args: Seq<char>) -> bool {
    &&& e.binary@ == exe
    &&& forall|j: int| 0 <= j < e.arguments@.len() ==> contains_spec(args, #[trigger] e.arguments@[j]@)
}

/// The window's command line joined with single spaces.
pub open spec fn joined_cmdline(w: Window) -> Seq<char> {
    join_spec(views(w.cmdline@), seq![' '])
}

/// Whether `g` is the game that window `w` shows: one of its executables is
/// the window's process, or the window's class is one of its classes and the
/// title holds its title substring (when it has one).
pub open spec fn game_matches(g: IdentifiableGame, w: Window) -> bool {
    ||| {
        &&& g.executables@.len() > 0
        &&& w.executable is Some
        &&& exists|i: int|
            0 <= i < g.executables@.len() && exe_matches(
                #[trigger] g.executables@[i],
                w.executable->0@,
                joined_cmdline(w),
            )
    }
    ||| {
        &&& g.classes@.len() > 0
        &&& exists|i: int| 0 <= i < g.classes@.len() && (#[trigger] g.classes@[i])@ == w.class@
        &&& match g.title_substring {
            Some(sub) => contains_spec(w.title@, sub@),
            None => true,
        }
    }
}

/// The id of the first game of `games` that matches `w`.
pub open spec fn identify_spec(games: Seq<IdentifiableGame>, w: Window) -> Option<u64>
    decreases games.len(),
{
    if games.len() == 0 {
        None
    } else if game_matches(games[0], w) {
        Some(games[0].id)
    } else {
        identify_spec(games.drop_first(), w)
    }
}

/// A window is identified as a catalog game only through what it shows:
/// either its process is one of the game's executables, with every argument
/// of that entry on its command line, or its class is one of the game's
/// classes, with the game's title substring (if any) in its title. So a
/// window whose process is no catalog binary and whose class is in no
/// catalog class list is identified as nothing.
pub proof fn law_identified_game_shows_in_window(games: Seq<IdentifiableGame>, w: Window)
    ensures
        identify_spec(games, w) matches Some(id) ==> exists|i: int| #![trigger games[i]] 0 <= i < games.len() && games[i].id == id && ((w.executable is Some && exists|k: int| #![trigger games[i].executables@[k]] 0 <= k < games[i].executables@.len() && games[i].executables@[k].binary@ == w.executable->0@ && forall|j: int| 0 <= j < games[i].executables@[k].arguments@.len() ==> contains_spec(joined_cmdline(w), #[trigger] games[i].executables@[k].arguments@[j]@)) || (exists|k: int| #![trigger games[i].classes@[k]] 0 <= k < games[i].classes@.len() && games[i].classes@[k]@ == w.class@ && match games[i].title_substring { Some(sub) => contains_spec(w.title@, sub@), None => true })),
        (forall|i: int, k: int| #![trigger games[i].executables@[k]] 0 <= i < games.len() && 0 <= k < games[i].executables@.len() && w.executable is Some ==> games[i].executables@[k].binary@ != w.executable->0@) && (forall|i: int, k: int| #![trigger games[i].classes@[k]] 0 <= i < games.len() && 0 <= k < games[i].classes@.len() ==> games[i].classes@[k]@ != w.class@) ==> identify_spec(games, w) is None,
    decreases games.len(),
{
    if games.len() > 0 {
        let tail = games.drop_first();
        law_identified_game_shows_in_window(tail, w);
        let g = games[0];
        if game_matches(g, w) {
            assert(games[0] == g);
        } else {
            assert forall|i: int| 0 <= i < tail.len() implies #[trigger] tail[i] == games[i + 1] by {}
            if identify_spec(games, w) is Some {
                let i = choose|i: int| #![trigger tail[i]] 0 <= i < tail.len() && tail[i].id == identify_spec(games, w)->0 && ((w.executable is Some && exists|k: int| #![trigger tail[i].executables@[k]] 0 <= k < tail[i].executables@.len() && tail[i].executables@[k].binary@ == w.executable->0@ && forall|j: int| 0 <= j < tail[i].executables@[k].arguments@.len() ==> contains_spec(joined_cmdline(w), #[trigger] tail[i].executables@[k].arguments@[j]@)) || (exists|k: int| #![trigger tail[i].classes@[k]] 0 <= k < tail[i].classes@.len() && tail[i].classes@[k]@ == w.class@ && match tail[i].title_substring { Some(sub) => contains_spec(w.title@, sub@), None => true }));
                assert(games[i + 1] == tail[i]);
            }
        }
        if game_matches(g, w) && w.executable is Some && g.executables@.len() > 0 && exists|i: int| 0 <= i < g.executables@.len() && exe_matches(#[trigger] g.executables@[i], w.executable->0@, joined_cmdline(w)) {
            let k = choose|k: int| 0 <= k < g.executables@.len() && exe_matches(#[trigger] g.executables@[k], w.executable->0@, joined_cmdline(w));
            assert(games[0].executables@[k].binary@ == w.executable->0@);
        }
        if game_matches(g, w) && g.classes@.len() > 0 && exists|i: int| 0 <= i < g.classes@.len() && (#[trigger] g.classes@[i])@ == w.class@ {
            let k = choose|k: int| 0 <= k < g.classes@.len() && (#[trigger] g.classes@[k])@ == w.class@;
            assert(games[0].classes@[k]@ == w.class@);
        }
    }
}

fn all_arguments_occur(args: &Vec<char>, arguments: &Vec<String>) -> (b: bool)
    ensures
        b == forall|j: int| 0 <= j < arguments@.len() ==> contains_spec(args@, #[trigger] arguments@[j]@),
{
    let mut j: usize = 0;
    while j < arguments.len()
        invariant
            j <= arguments@.len(),
            forall|k: int| 0 <= k < j ==> contains_spec(args@, #[trigger] arguments@[k]@),
        decreases arguments@.len() - j,
    {
        let a = chars_of(arguments[j].as_str());
        if !contains_chars(args, &a) {
            return false;
        }
        j = j + 1;
    }
    true
}

fn any_executable_matches(exes: &Vec<Executable>, exe: &String, args: &Vec<char>) -> (b: bool)
    ensures
        b == exists|i: int| 0 <= i < exes@.len() && exe_matches(#[trigger] exes@[i], exe@, args@),
{
    let mut i: usize = 0;
    while i < exes.len()
        invariant
            i <= exes@.len(),
            forall|k: int| 0 <= k < i ==> !exe_matches(#[trigger] exes@[k], exe@, args@),
        decreases exes@.len() - i,
    {
        let e = &exes[i];
        if e.binary == *exe && all_arguments_occur(args, &e.arguments) {
            assert(exe_matches(exes@[i as int], exe@, args@));
            return true;
        }
        i = i + 1;
    }
    false
}

fn any_class_is(classes: &Vec<String>, class: &String) -> (b: bool)
    ensures
        b == exists|i: int| 0 <= i < classes@.len() && (#[trigger] classes@[i])@ == class@,
{
    let mut i: usize = 0;
    while i < classes.len()
        invariant
            i <= classes@.len(),
            forall|k: int| 0 <= k < i ==> (#[trigger] classes@[k])@ != class@,
        decreases classes@.len() - i,
    {
        if classes[i] == *class {
            return true;
        }
        i = i + 1;
    }
    false
}

fn matches_window(game: &IdentifiableGame, window: &Window, args: &Vec<char>) -> (b: bool)
    requires
        args@ == joined_cmdline(*window),
    ensures
        b == game_matches(*game, *window),
{
    if game.executables.len() > 0 {
        if let Some(exe) = &window.executable {
            if any_executable_matches(&game.executables, exe, args) {
                return true;
            }
        }
    }
    if game.classes.len() > 0 && any_class_is(&game.classes, &window.class) {
        return match &game.title_substring {
            Some(sub) => contains(window.title.as_str(), sub.as_str()),
            None => true,
        };
    }
    false
}

/// The id of the first catalog game that the window belongs to (see
/// [`game_matches`]); an unloaded catalog identifies nothing.
pub fn identify_game(games: Option<&Vec<IdentifiableGame>>, window: &Window) -> (r: Option<ObjectId>)
    ensures
        r == match games {
            Some(g) => identify_spec(g@, *window),
            None => None,
        },
{
    let gs = match games {
        Some(g) => g,
        None => return None,
    };
    let args = join(&window.cmdline, " ");
    proof {
        reveal_strlit(" ");
        assert(" "@ =~= seq![' ']);
    }
    assert(gs@.skip(0) =~= gs@);
    let mut i: usize = 0;
    while i < gs.len()
        invariant
            games == Some(gs),
            i <= gs@.len(),
            args@ == joined_cmdline(*window),
            identify_spec(gs@.skip(i as int), *window) == identify_spec(gs@, *window),
        decreases gs@.len() - i,
    {
        let ghost rest = gs@.skip(i as int);
        assert(rest[0] == gs@[i as int]);
        if matches_window(&gs[i], window, &args) {
            return Some(gs[i].id);
        }
        assert(rest.drop_first() =~= gs@.skip(i + 1));
        i = i + 1;
    }
    assert(gs@.skip(i as int).len() == 0);
    None
}

} // verus!

verus! {

/// Whether a line is a `//` comment line of the catalog file.
pub open spec fn is_comment_line(l: Seq<char>) -> bool {
    starts_with_spec(l, seq!['/', '/'])
}

/// The lines that are not comment lines, concatenated without separators.
pub open spec fn kept_lines(ls: Seq<Seq<char>>) -> Seq<char>
    decreases ls.len(),
{
    if ls.len() == 0 {
        seq![]
    } else {
        (if is_comment_line(ls[0]) {
            seq![]
        } else {
            ls[0]
        }) + kept_lines(ls.drop_first())
    }
}

proof fn lemma_kept_lines_cons(a: Seq<char>, ls: Seq<Seq<char>>)
    ensures
        kept_lines(seq![a] + ls) == (if is_comment_line(a) {
            seq![]
        } else {
            a
        }) + kept_lines(ls),
{
    let all = seq![a] + ls;
    assert(all[0] == a);
    assert(all.drop_first() =~= ls);
}

/// The catalog file with its `//` comment lines removed: the other lines of
/// `text` (as `str::lines` splits it) concatenated, as the catalog loader
/// feeds them to the JSON parser.
pub fn strip_comment_lines(text: &str) -> (r: String)
    ensures
        r@ == kept_lines(lines_spec(text@)),
{
    let v = chars_of(text);
    let n = v.len();
    let slashes: Vec<char> = vec!['/', '/'];
    let mut out: Vec<char> = Vec::new();
    let mut p: usize = 0;
    assert(v@.skip(0) =~= v@);
    while p < n
        invariant
            p <= n,
            n == v@.len(),
            v@ == text@,
            slashes@ == seq!['/', '/'],
            out@ + kept_lines(lines_spec(v@.skip(p as int))) == kept_lines(lines_spec(v@)),
        decreases n - p,
    {
        let ghost rest = v@.skip(p as int);
        let ghost before = out@;
        let k = line_end(&v, p);
        let mut line = slice_chars(&v, p, k);
        proof {
            lemma_lines_step(rest);
            assert(rest.take(k - p) =~= v@.subrange(p as int, k as int));
            if k == n {
                assert(rest =~= v@.subrange(p as int, k as int));
            } else {
                assert(rest.skip(k - p + 1) =~= v@.skip(k + 1));
            }
        }
        if k < n {
            strip_cr_exec(&mut line);
        }
        let ghost l = line@;
        if !starts_with_chars(&line, &slashes) {
            extend_chars(&mut out, line.as_slice());
        }
        proof {
            if k == n {
                lemma_kept_lines_cons(l, seq![]);
                assert(seq![l] + Seq::<Seq<char>>::empty() =~= seq![l]);
                assert(v@.skip(n as int).len() == 0);
            } else {
                lemma_kept_lines_cons(l, lines_spec(v@.skip(k + 1)));
            }
        }
        if k < n {
            p = k + 1;
        } else {
            p = n;
        }
    }
    assert(v@.skip(n as int).len() == 0);
    string_from_chars(out.as_slice())
}

} // verus!

verus! {

/// The window managers whose focused window can be asked for.
#[derive(Debug, Clone, Copy, PartialEq, Eq, Structural)]
pub enum WindowManagerKind {
    Hyprland,
}

/// A desktop (from `XDG_CURRENT_DESKTOP`) with no supported window manager.
#[derive(Debug)]
pub struct UnknownDesktop {
    pub desktop: String,
}

impl UnknownDesktop {
    /// The error text: the desktop's name, then " is unknown".
    pub fn message(&self) -> (s: String)
        ensures
            s@ == self.desktop@ + " is unknown"@,
    {
        let mut out = chars_of(self.desktop.as_str());
        crate::text::extend_str(&mut out, " is unknown");
        string_from_chars(out.as_slice())
    }
}

/// The window manager for a desktop name. KDE and GNOME support is not
/// written yet, and asking for them is left out.
pub fn select_window_manager(desktop: &str) -> (r: Result<WindowManagerKind, UnknownDesktop>)
    requires
        desktop@ != "KDE"@,
        desktop@ != "GNOME"@,
    ensures
        desktop@ == "Hyprland"@ ==> r == Ok::<WindowManagerKind, UnknownDesktop>(WindowManagerKind::Hyprland),
        desktop@ != "Hyprland"@ ==> (r matches Err(e) && e.desktop@ == desktop@),
{
    let d = chars_of(desktop);
    let h = chars_of("Hyprland");
    if d.len() == h.len() && crate::text::starts_with_chars(&d, &h) {
        proof {
            assert(d@.subrange(0, h@.len() as int) =~= d@);
        }
        Ok(WindowManagerKind::Hyprland)
    } else {
        proof {
            if d@ == h@ {
                assert(d@.subrange(0, h@.len() as int) =~= d@);
            }
        }
        Err(UnknownDesktop { desktop: desktop.to_string() })
    }
}

/// The message of the window manager that cannot be asked.
pub fn unknown_window_manager_message() -> (s: &'static str)
    ensures
        s@ == "unknown window manager"@,
{
    "unknown window manager"
}

} // verus!
