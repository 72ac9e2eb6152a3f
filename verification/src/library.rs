//! Decisions of the clip library window: which games to keep, which game a
//! choice names, which clips to delete, what the status line says, and the
//! records that a saved clip and the settings turn into.
use vstd::prelude::*;
use crate::schema::{Clip, CustomAction, Game, ObjectId, Settings};
use crate::identifier::{IdentifiableGame, Window, get_game, identify_game, identify_spec};
use crate::paths::{components, join_spec, strip_prefix, strip_prefix_spec};
use crate::text::{extend_str, string_from_chars};

verus! {

/// Whether some clip is tagged with game `id`.
pub open spec fn game_referenced(clips: Seq<Clip>, id: ObjectId) -> bool {
    exists|i: int| 0 <= i < clips.len() && #[trigger] clips[i].game == Some(id)
}

/// Whether some record of `games` has id `id`.
pub open spec fn has_game_id(games: Seq<Game>, id: ObjectId) -> bool {
    exists|i: int| 0 <= i < games.len() && #[trigger] games[i].id == id
}

fn referenced(clips: &Vec<Clip>, id: ObjectId) -> (b: bool)
    ensures
        b == game_referenced(clips@, id),
{
    let mut i: usize = 0;
    while i < clips.len()
        invariant
            i <= clips@.len(),
            forall|k: int| 0 <= k < i ==> #[trigger] clips@[k].game != Some(id),
        decreases clips@.len() - i,
    {
        if clips[i].game == Some(id) {
            return true;
        }
        i = i + 1;
    }
    false
}

fn vec_contains(v: &Vec<ObjectId>, x: ObjectId) -> (b: bool)
    ensures
        b == v@.contains(x),
{
    let mut i: usize = 0;
    while i < v.len()
        invariant
            i <= v@.len(),
            forall|k: int| 0 <= k < i ==> v@[k] != x,
        decreases v@.len() - i,
    {
        if v[i] == x {
            return true;
        }
        i = i + 1;
    }
    false
}

/// The ids of the game records that no clip is tagged with any more; each
/// such id appears once. The window deletes these games after clips change.
pub fn unused_games(games: &Vec<Game>, clips: &Vec<Clip>) -> (r: Vec<ObjectId>)
    ensures
        forall|x: ObjectId| r@.contains(x) <==> (has_game_id(games@, x) && !game_referenced(clips@, x)),
        r@.no_duplicates(),
{
    let mut r: Vec<ObjectId> = Vec::new();
    let mut i: usize = 0;
    while i < games.len()
        invariant
            i <= games@.len(),
            forall|x: ObjectId| r@.contains(x) <==> (has_game_id(games@.take(i as int), x)
                && !game_referenced(clips@, x)),
            r@.no_duplicates(),
        decreases games@.len() - i,
    {
        let id = games[i].id;
        let ghost before = r@;
        if !referenced(clips, id) && !vec_contains(&r, id) {
            r.push(id);
        }
        proof {
            let prev = games@.take(i as int);
            let now = games@.take(i + 1);
            assert forall|x: ObjectId| has_game_id(now, x) <==> (has_game_id(prev, x) || x == id) by {
                if has_game_id(now, x) {
                    let k = choose|k: int| 0 <= k < now.len() && #[trigger] now[k].id == x;
                    if k < i {
                        assert(prev[k] == now[k]);
                    }
                }
                if has_game_id(prev, x) {
                    let k = choose|k: int| 0 <= k < prev.len() && #[trigger] prev[k].id == x;
                    assert(now[k] == prev[k]);
                }
                if x == id {
                    assert(now[i as int].id == x);
                }
            }
            assert forall|x: ObjectId| r@.contains(x) <==> (has_game_id(now, x)
                && !game_referenced(clips@, x)) by {
                if r@.len() > before.len() {
                    assert(r@ == before.push(id));
                    if x == id {
                        assert(r@[before.len() as int] == id);
                    }
                    if r@.contains(x) && x != id {
                        let k = choose|k: int| 0 <= k < r@.len() && r@[k] == x;
                        assert(before[k] == x);
                    }
                    if before.contains(x) {
                        let k = choose|k: int| 0 <= k < before.len() && before[k] == x;
                        assert(r@[k] == x);
                    }
                }
            }
        }
        i = i + 1;
    }
    assert(games@.take(games@.len() as int) =~= games@);
    r
}

/// What a choice of game for some clips amounts to.
#[derive(Debug, Clone, Copy, PartialEq, Eq, Structural)]
pub enum GameChoice {
    /// untag the clips
    Clear,
    /// tag them with this existing game record
    Existing(ObjectId),
    /// add a game record for this catalog entry and tag them with it
    Add(ObjectId),
}

/// The first game record that stands for catalog entry `game_id`.
pub open spec fn first_record_for(games: Seq<Game>, game_id: ObjectId) -> Option<ObjectId>
    decreases games.len(),
{
    if games.len() == 0 {
        None
    } else if games[0].game_id == game_id {
        Some(games[0].id)
    } else {
        first_record_for(games.drop_first(), game_id)
    }
}

/// The game record to tag clips with for catalog entry `game_id`: the first
/// existing record for it, or a new one.
pub fn record_for(games: &Vec<Game>, game_id: ObjectId) -> (r: GameChoice)
    ensures
        r == match first_record_for(games@, game_id) {
            Some(id) => GameChoice::Existing(id),
            None => GameChoice::Add(game_id),
        },
{
    let mut i: usize = 0;
    assert(games@.skip(0) =~= games@);
    while i < games.len()
        invariant
            i <= games@.len(),
            first_record_for(games@.skip(i as int), game_id) == first_record_for(games@, game_id),
        decreases games@.len() - i,
    {
        let ghost rest = games@.skip(i as int);
        assert(rest[0] == games@[i as int]);
        if games[i].game_id == game_id {
            return GameChoice::Existing(games[i].id);
        }
        assert(rest.drop_first() =~= games@.skip(i + 1));
        i = i + 1;
    }
    assert(games@.skip(i as int).len() == 0);
    GameChoice::Add(game_id)
}

/// What choosing entry `index` of the game dialog amounts to: entry 0 is
/// "None"; entry `i` is catalog entry `i - 1`.
pub fn choose_game(index: u64, games: &Vec<Game>) -> (r: GameChoice)
    ensures
        index == 0 ==> r == GameChoice::Clear,
        index > 0 ==> r == match first_record_for(games@, (index - 1) as u64) {
            Some(id) => GameChoice::Existing(id),
            None => GameChoice::Add((index - 1) as u64),
        },
{
    if index == 0 {
        GameChoice::Clear
    } else {
        record_for(games, index - 1)
    }
}

/// The names of the catalog's games, in order.
pub open spec fn game_names(catalog: Seq<IdentifiableGame>) -> Seq<Seq<char>> {
    catalog.map_values(|g: IdentifiableGame| g.name@)
}

/// The entries of the game dialog: "None", then the catalog's names in order.
pub open spec fn game_options_spec(catalog: Seq<IdentifiableGame>) -> Seq<Seq<char>> {
    seq!["None"@] + game_names(catalog)
}

/// The entries of the game dialog.
pub fn game_options(catalog: &Vec<IdentifiableGame>) -> (r: Vec<String>)
    ensures
        crate::text::views(r@) == game_options_spec(catalog@),
{
    let mut r: Vec<String> = Vec::new();
    r.push("None".to_string());
    let mut i: usize = 0;
    assert(crate::text::views(r@) =~= seq!["None"@] + game_names(catalog@.take(0)));
    while i < catalog.len()
        invariant
            i <= catalog@.len(),
            crate::text::views(r@) == seq!["None"@] + game_names(catalog@.take(i as int)),
        decreases catalog@.len() - i,
    {
        let ghost prev = crate::text::views(r@);
        r.push(catalog[i].name.clone());
        assert(crate::text::views(r@) =~= prev.push(catalog@[i as int].name@));
        assert(game_names(catalog@.take(i + 1)) =~= game_names(catalog@.take(i as int)).push(
            catalog@[i as int].name@,
        ));
        i = i + 1;
        assert(crate::text::views(r@) =~= seq!["None"@] + game_names(catalog@.take(i as int)));
    }
    assert(catalog@.take(catalog@.len() as int) =~= catalog@);
    r
}

/// Choosing an entry of the game dialog tags the clips with the catalog game
/// whose name the entry shows: entry `i > 0` shows catalog entry `i - 1`, and
/// the choice names that catalog entry, through its existing record or a new one.
pub proof fn law_game_option_names_choice(catalog: Seq<IdentifiableGame>, games: Seq<Game>, i: int)
    requires
        0 < i <= catalog.len(),
    ensures
        game_options_spec(catalog)[i] == catalog[i - 1].name@,
        match first_record_for(games, (i - 1) as u64) {
            Some(id) => exists|k: int| 0 <= k < games.len() && games[k].id == id && games[k].game_id == (i - 1) as u64,
            None => true,
        },
{
    lemma_first_record_for(games, (i - 1) as u64);
}

proof fn lemma_first_record_for(games: Seq<Game>, game_id: ObjectId)
    ensures
        match first_record_for(games, game_id) {
            Some(id) => exists|k: int| 0 <= k < games.len() && games[k].id == id && games[k].game_id == game_id,
            None => forall|k: int| 0 <= k < games.len() ==> #[trigger] games[k].game_id != game_id,
        },
    decreases games.len(),
{
    if games.len() > 0 {
        if games[0].game_id == game_id {
            assert(games[0].id == games[0].id);
        } else {
            let t = games.drop_first();
            lemma_first_record_for(t, game_id);
            match first_record_for(t, game_id) {
                Some(id) => {
                    let k = choose|k: int| 0 <= k < t.len() && t[k].id == id && t[k].game_id == game_id;
                    assert(games[k + 1] == t[k]);
                },
                None => {
                    assert forall|k: int| 0 <= k < games.len() implies #[trigger] games[k].game_id != game_id by {
                        if k > 0 {
                            assert(games[k] == t[k - 1]);
                        }
                    }
                },
            }
        }
    }
}

/// The positions of the clips to delete: those whose id is selected, last
/// position first.
pub fn clips_to_delete(clips: &Vec<Clip>, ids: &Vec<ObjectId>) -> (r: Vec<usize>)
    ensures
        forall|k: int| 0 <= k < r@.len() ==> #[trigger] r@[k] < clips@.len() && ids@.contains(clips@[r@[k] as int].id),
        forall|k: int, l: int| 0 <= k < l < r@.len() ==> r@[k] > r@[l],
        forall|p: int| 0 <= p < clips@.len() && ids@.contains(#[trigger] clips@[p].id) ==> r@.contains(p as usize),
{
    let mut r: Vec<usize> = Vec::new();
    let mut i: usize = clips.len();
    while i > 0
        invariant
            i <= clips@.len(),
            forall|k: int| 0 <= k < r@.len() ==> #[trigger] r@[k] < clips@.len() && r@[k] >= i && ids@.contains(clips@[r@[k] as int].id),
            forall|k: int, l: int| 0 <= k < l < r@.len() ==> r@[k] > r@[l],
            forall|p: int| i <= p < clips@.len() && ids@.contains(#[trigger] clips@[p].id) ==> r@.contains(p as usize),
        decreases i,
    {
        i = i - 1;
        let ghost before = r@;
        if vec_contains(ids, clips[i].id) {
            r.push(i);
            proof {
                assert forall|p: int| i <= p < clips@.len() && ids@.contains(#[trigger] clips@[p].id) implies r@.contains(p as usize) by {
                    if p == i {
                        assert(r@[before.len() as int] == i);
                    } else {
                        let k = choose|k: int| 0 <= k < before.len() && before[k] == p as usize;
                        assert(r@[k] == p as usize);
                    }
                }
            }
        }
    }
    r
}

/// The first position of `c` in `v`.
pub fn position_of(v: &Vec<String>, c: &String) -> (r: Option<usize>)
    ensures
        match r {
            Some(p) => p < v@.len() && v@[p as int]@ == c@ && forall|k: int|
                0 <= k < p ==> (#[trigger] v@[k])@ != c@,
            None => forall|k: int| 0 <= k < v@.len() ==> (#[trigger] v@[k])@ != c@,
        },
{
    let mut i: usize = 0;
    while i < v.len()
        invariant
            i <= v@.len(),
            forall|k: int| 0 <= k < i ==> (#[trigger] v@[k])@ != c@,
        decreases v@.len() - i,
    {
        if v[i] == *c {
            return Some(i);
        }
        i = i + 1;
    }
    None
}

/// The position of the chosen display in the list of displays: none when no
/// display is chosen; the first position when it is not in the list.
pub fn display_index(displays: &Vec<String>, current: &Option<String>) -> (r: Option<usize>)
    ensures
        current is None ==> r is None,
        current matches Some(c) ==> r matches Some(p) && (if exists|k: int|
            0 <= k < displays@.len() && (#[trigger] displays@[k])@ == c@ {
            p < displays@.len() && displays@[p as int]@ == c@ && forall|k: int|
                0 <= k < p ==> (#[trigger] displays@[k])@ != c@
        } else {
            p == 0
        }),
{
    match current {
        None => None,
        Some(c) => match position_of(displays, c) {
            Some(p) => {
                assert(displays@[p as int]@ == c@);
                Some(p)
            },
            None => Some(0),
        },
    }
}

/// The game that selecting chip `index` filters by: chip 0 is "All games";
/// another chip's game, when there is such a chip.
pub fn selected_game_for(chips: &Vec<ObjectId>, index: usize) -> (r: Option<ObjectId>)
    ensures
        index == 0 ==> r is None,
        index > 0 && index < chips@.len() ==> r == Some(chips@[index as int]),
        index > 0 && index >= chips@.len() ==> r is None,
{
    if index == 0 {
        None
    } else if index < chips.len() {
        Some(chips[index])
    } else {
        None
    }
}

/// Whether a clip shows while the grid is filtered by `selected` game.
pub fn clip_visible(selected: Option<ObjectId>, clip_game: Option<ObjectId>) -> (b: bool)
    ensures
        b == match selected {
            None => true,
            Some(g) => clip_game == Some(g),
        },
{
    match selected {
        None => true,
        Some(g) => match clip_game {
            Some(id) => g == id,
            None => false,
        },
    }
}

/// A game record whose catalog entry is unknown.
#[derive(Debug, Clone, Copy, PartialEq, Eq, Structural)]
pub struct UnknownGame {
    pub game_id: ObjectId,
}

impl UnknownGame {
    pub fn message(&self) -> (s: &'static str)
        ensures
            s@ == "could not get game name"@,
    {
        "could not get game name"
    }
}

/// The chips of the game bar: "All games" (id 0), then each game record with
/// its catalog name; an error when a record's catalog entry is unknown.
pub fn game_chips(games: &Vec<Game>, catalog: Option<&Vec<IdentifiableGame>>) -> (r: Result<
    Vec<(ObjectId, String)>,
    UnknownGame,
>)
    ensures
        r matches Ok(v) ==> {
            &&& v@.len() == games@.len() + 1
            &&& v@[0].0 == 0 && v@[0].1@ == "All games"@
            &&& forall|k: int| 0 <= k < games@.len() ==> {
                &&& #[trigger] v@[k + 1].0 == games@[k].id
                &&& catalog matches Some(c) && games@[k].game_id < c@.len() && v@[k + 1].1@
                    == c@[games@[k].game_id as int].name@
            }
        },
        r matches Err(e) ==> exists|k: int| 0 <= k < games@.len() && (#[trigger] games@[k]).game_id == e.game_id
            && match catalog {
                Some(c) => games@[k].game_id >= c@.len(),
                None => true,
            },
{
    let mut v: Vec<(ObjectId, String)> = Vec::new();
    v.push((0, "All games".to_string()));
    let mut i: usize = 0;
    while i < games.len()
        invariant
            i <= games@.len(),
            v@.len() == i + 1,
            v@[0].0 == 0 && v@[0].1@ == "All games"@,
            forall|k: int| 0 <= k < i ==> {
                &&& #[trigger] v@[k + 1].0 == games@[k].id
                &&& catalog matches Some(c) && games@[k].game_id < c@.len() && v@[k + 1].1@
                    == c@[games@[k].game_id as int].name@
            },
        decreases games@.len() - i,
    {
        let g = games[i];
        match get_game(catalog, g.game_id) {
            Some(entry) => {
                let ghost prev = v@;
                v.push((g.id, entry.name.clone()));
                proof {
                    assert(v@[i + 1] == (g.id, entry.name));
                    assert(g == games@[i as int]);
                    match catalog {
                        Some(c) => {
                            assert(g.game_id < c@.len());
                            assert(*entry == c@[g.game_id as int]);
                        },
                        None => {},
                    }
                    assert forall|k: int| 0 <= k < i implies #[trigger] v@[k + 1] == prev[k + 1] by {}
                    assert(v@[0] == prev[0]);
                }
            },
            None => {
                assert(games@[i as int].game_id == g.game_id);
                return Err(UnknownGame { game_id: g.game_id });
            },
        }
        i = i + 1;
    }
    Ok(v)
}

/// The status line under the replay buffer state: resolution label, "p · ",
/// frame rate, " fps · ", codec label.
pub fn status_caption(settings: &Settings) -> (s: String)
    ensures
        s@ == settings.resolution.spec_display() + "p · "@ + settings.frame_rate.spec_display()
            + " fps · "@ + settings.codec.spec_display(),
{
    let mut out: Vec<char> = Vec::new();
    extend_str(&mut out, settings.resolution.display());
    extend_str(&mut out, "p · ");
    extend_str(&mut out, settings.frame_rate.display());
    extend_str(&mut out, " fps · ");
    extend_str(&mut out, settings.codec.display());
    string_from_chars(out.as_slice())
}

/// The text that the rename dialog opens with: the clip's title when one
/// clip is selected, a placeholder otherwise.
pub fn rename_prompt(selected_count: usize, single_title: &str) -> (s: String)
    ensures
        selected_count == 1 ==> s@ == single_title@,
        selected_count != 1 ==> s@ == "New titles"@,
{
    if selected_count == 1 {
        single_title.to_string()
    } else {
        "New titles".to_string()
    }
}

/// The record of a clip that the recorder just saved, captured with the
/// current settings; it is untitled until the user renames it.
pub fn new_clip(
    settings: &Settings,
    path: String,
    game: Option<ObjectId>,
    duration_secs: Option<u64>,
    created: u64,
) -> (c: Clip)
    ensures
        c.id == 0,
        c.title@ == "Untitled"@,
        c.path@ == path@,
        c.game == game,
        c.duration_secs == duration_secs,
        c.created == created,
        c.codec == settings.codec,
        c.container == settings.container,
        c.fps == settings.frame_rate,
        c.quality == settings.quality,
        c.resolution == settings.resolution,
        !c.favorited,
{
    Clip {
        id: 0,
        title: "Untitled".to_string(),
        path,
        codec: settings.codec,
        container: settings.container,
        fps: settings.frame_rate,
        quality: settings.quality,
        resolution: settings.resolution,
        game,
        duration_secs,
        created,
        favorited: false,
    }
}

/// A finished recording whose file does not lie in the clip library folder.
#[derive(Debug, Clone, Copy, PartialEq, Eq, Structural)]
pub struct OutsideLibrary;

impl OutsideLibrary {
    /// The error's text.
    pub fn message(&self) -> (s: &'static str)
        ensures
            s@ == "invalid clip recv"@,
    {
        "invalid clip recv"
    }
}

/// The record of a recording just saved at `path`: a new clip whose path is
/// `path` relative to the library folder (see [`strip_prefix_spec`]), with the
/// recording settings, `game`, `duration_secs` and `created`. Joined back onto
/// the library folder, that path names the saved file again; below a library
/// folder that is not empty it is relative, so that it follows the library
/// when the library moves.
pub fn received_clip(
    settings: &Settings,
    path: &str,
    game: Option<ObjectId>,
    duration_secs: Option<u64>,
    created: u64,
) -> (r: Result<Clip, OutsideLibrary>)
    ensures
        r is Err <==> strip_prefix_spec(path@, settings.output_dir@) is None,
        r matches Ok(c) ==> {
            &&& strip_prefix_spec(path@, settings.output_dir@) == Some(c.path@)
            &&& components(join_spec(settings.output_dir@, c.path@)) == components(path@)
            &&& settings.output_dir@.len() > 0 ==> !crate::paths::is_absolute(c.path@)
            &&& settings.output_dir@.len() > 0 ==> crate::paths::normal_relative(c.path@)
            &&& c.id == 0
            &&& c.title@ == "Untitled"@
            &&& c.game == game
            &&& c.duration_secs == duration_secs
            &&& c.created == created
            &&& c.codec == settings.codec
            &&& c.container == settings.container
            &&& c.fps == settings.frame_rate
            &&& c.quality == settings.quality
            &&& c.resolution == settings.resolution
            &&& !c.favorited
        },
{
    match strip_prefix(path, settings.output_dir.as_str()) {
        None => Err(OutsideLibrary),
        Some(relative) => {
            proof {
                crate::paths::law_strip_prefix_then_join(path@, settings.output_dir@);
                if settings.output_dir@.len() > 0 {
                    crate::paths::lemma_strip_result(path@, settings.output_dir@);
                }
            }
            Ok(new_clip(settings, relative, game, duration_secs, created))
        },
    }
}

/// The game to tag a clip with that was recorded while `window` had the
/// focus: only a fullscreen window is looked up in the catalog, and a game
/// found there maps to its record (see [`record_for`]).
pub fn game_for_window(
    catalog: Option<&Vec<IdentifiableGame>>,
    window: &Window,
    games: &Vec<Game>,
) -> (r: Option<GameChoice>)
    ensures
        !window.fullscreen ==> r is None,
        window.fullscreen ==> r == match (match catalog {
            Some(g) => identify_spec(g@, *window),
            None => None,
        }) {
            Some(game_id) => Some(
                match first_record_for(games@, game_id) {
                    Some(id) => GameChoice::Existing(id),
                    None => GameChoice::Add(game_id),
                },
            ),
            None => None,
        },
{
    if !window.fullscreen {
        return None;
    }
    match identify_game(catalog, window) {
        Some(game_id) => Some(record_for(games, game_id)),
        None => None,
    }
}

/// Version of the table layout that this library writes.
pub const CURRENT_VERSION: u64 = 1;

/// Whether a database at layout version `version` must first be migrated to
/// the first layout (which creates the tables and default settings).
pub fn needs_first_migration(version: u64) -> (b: bool)
    ensures
        b == (version < 1),
{
    version < 1
}

/// The key for a new record of a table whose last key is `last`: one past
/// it, or 0 for an empty table.
pub fn next_object_id(last: Option<ObjectId>) -> (id: ObjectId)
    requires
        last matches Some(l) ==> l < u64::MAX,
    ensures
        match last {
            Some(l) => id == l + 1,
            None => id == 0,
        },
{
    match last {
        Some(l) => l + 1,
        None => 0,
    }
}

/// A custom action that the settings do not hold.
#[derive(Debug, Clone, Copy, PartialEq, Eq, Structural)]
pub struct ActionNotFound;

impl ActionNotFound {
    pub fn message(&self) -> (s: &'static str)
        ensures
            s@ == "could not find action"@,
    {
        "could not find action"
    }
}

/// Position of the first custom action with id `id`.
pub open spec fn action_position(actions: Seq<CustomAction>, id: ObjectId) -> Option<int>
    decreases actions.len(),
{
    if actions.len() == 0 {
        None
    } else if actions[0].id == id {
        Some(0)
    } else {
        match action_position(actions.drop_first(), id) {
            Some(p) => Some(p + 1),
            None => None,
        }
    }
}

proof fn lemma_action_position(actions: Seq<CustomAction>, id: ObjectId)
    ensures
        match action_position(actions, id) {
            Some(p) => 0 <= p < actions.len() && actions[p].id == id && forall|k: int|
                0 <= k < p ==> #[trigger] actions[k].id != id,
            None => forall|k: int| 0 <= k < actions.len() ==> #[trigger] actions[k].id != id,
        },
    decreases actions.len(),
{
    if actions.len() > 0 && actions[0].id != id {
        let t = actions.drop_first();
        lemma_action_position(t, id);
        assert forall|k: int| 1 <= k < actions.len() implies actions[k] == t[k - 1] by {}
    }
}

fn find_action(actions: &Vec<CustomAction>, id: ObjectId) -> (r: Option<usize>)
    ensures
        match r {
            Some(p) => p < actions@.len() && action_position(actions@, id) == Some(p as int),
            None => action_position(actions@, id) is None,
        },
{
    proof {
        lemma_action_position(actions@, id);
    }
    let mut i: usize = 0;
    while i < actions.len()
        invariant
            i <= actions@.len(),
            forall|k: int| 0 <= k < i ==> #[trigger] actions@[k].id != id,
            match action_position(actions@, id) {
                Some(p) => 0 <= p < actions@.len() && actions@[p].id == id && forall|k: int|
                    0 <= k < p ==> #[trigger] actions@[k].id != id,
                None => forall|k: int| 0 <= k < actions@.len() ==> #[trigger] actions@[k].id != id,
            },
        decreases actions@.len() - i,
    {
        if actions[i].id == id {
            return Some(i);
        }
        i = i + 1;
    }
    None
}

/// Whether two settings agree in everything but their custom actions.
pub open spec fn same_but_actions(a: Settings, b: Settings) -> bool {
    &&& a.buffer_length == b.buffer_length
    &&& a.codec == b.codec
    &&& a.resolution == b.resolution
    &&& a.container == b.container
    &&& a.display == b.display
    &&& a.frame_rate == b.frame_rate
    &&& a.quality == b.quality
    &&& a.output_dir == b.output_dir
    &&& a.show_end_title_buttons == b.show_end_title_buttons
    &&& a.notifications == b.notifications
    &&& a.sound_feedback == b.sound_feedback
}

/// Removes the first custom action with id `id`; an error, leaving the
/// settings as they were, when there is none.
pub fn remove_custom_action(settings: &mut Settings, id: ObjectId) -> (r: Result<(), ActionNotFound>)
    ensures
        match action_position(old(settings).custom_actions@, id) {
            Some(p) => r is Ok && final(settings).custom_actions@ == old(settings).custom_actions@.remove(p),
            None => r is Err && final(settings).custom_actions@ == old(settings).custom_actions@,
        },
        same_but_actions(*final(settings), *old(settings)),
{
    match find_action(&settings.custom_actions, id) {
        Some(p) => {
            settings.custom_actions.remove(p);
            Ok(())
        },
        None => Err(ActionNotFound),
    }
}

/// Replaces the first custom action whose id is `action`'s; an error,
/// leaving the settings as they were, when there is none.
pub fn replace_custom_action(settings: &mut Settings, action: CustomAction) -> (r: Result<(), ActionNotFound>)
    ensures
        match action_position(old(settings).custom_actions@, action.id) {
            Some(p) => r is Ok && final(settings).custom_actions@ == old(settings).custom_actions@.update(p, action),
            None => r is Err && final(settings).custom_actions@ == old(settings).custom_actions@,
        },
        same_but_actions(*final(settings), *old(settings)),
{
    match find_action(&settings.custom_actions, action.id) {
        Some(p) => {
            settings.custom_actions.set(p, action);
            Ok(())
        },
        None => Err(ActionNotFound),
    }
}

} // verus!
