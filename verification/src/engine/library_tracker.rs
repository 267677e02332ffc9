//! The library of installed games: identifiers, folder slugs and the game
//! records with their updates.
use vstd::prelude::*;
use crate::dict::{Dict, index_of_key, lookup, inserted};
use crate::text::{chars_of, string_from_chars, views, concat3, str_eq};
use crate::unicode::{ascii_alnum, is_ascii_alphanumeric, lowercase, to_lower};
use std::hash::{Hash, Hasher};

verus! {

/// Where a game is in its life cycle.
#[derive(Debug, Clone, Copy, PartialEq, Eq, Structural)]
pub enum LibraryGameStatus {
    Downloading,
    Extracting,
    Ready,
    Corrupted,
}

/// What kind of executable a file is.
#[derive(Debug, Clone, Copy, PartialEq, Eq, Structural)]
pub enum ExeType {
    Main,
    Launcher,
    Tool,
    Installer,
    Redistributable,
    Unknown,
}

/// An executable found in a game's folder. The score (between 0 and 1) is held
/// as the IEEE-754 bits of the non-negative `f32`, which order as the scores do.
#[derive(Debug, Clone)]
pub struct GameExecutable {
    pub path: String,
    pub name: String,
    pub score_bits: u32,
    pub exe_type: ExeType,
}

/// A game in the library.
#[derive(Debug, Clone)]
pub struct LibraryGame {
    pub id: String,
    pub source_slug: String,
    pub source_game_id: String,
    pub title: String,
    pub cover_url: Option<String>,
    pub cover_path: Option<String>,
    pub install_path: String,
    pub install_size: u64,
    pub status: LibraryGameStatus,
    pub installed_at: u64,
    pub last_played: Option<u64>,
    pub total_playtime: u64,
    pub executables: Vec<GameExecutable>,
    pub primary_exe: Option<String>,
    pub archive_password: Option<String>,
    pub download_ids: Vec<String>,
}

/// The library as stored on disk.
#[derive(Debug, Clone)]
pub struct LibraryDb {
    pub games: Vec<LibraryGame>,
    pub library_folder: Option<String>,
}

impl Default for LibraryDb {
    /// No games, no folder.
    fn default() -> (r: Self)
        ensures
            r.games@.len() == 0,
            r.library_folder is None,
    {
        LibraryDb { games: Vec::new(), library_folder: None }
    }
}

// ---------------------------------------------------------------------------
// Slugs and identifiers
// ---------------------------------------------------------------------------

/// The maximal runs of ASCII letters and digits of `s`, `cur` being the run
/// being read.
pub open spec fn alnum_runs_from(s: Seq<char>, cur: Seq<char>) -> Seq<Seq<char>>
    decreases s.len(),
{
    if s.len() == 0 {
        if cur.len() == 0 { Seq::empty() } else { seq![cur] }
    } else if !ascii_alnum(s[0]) {
        (if cur.len() == 0 { Seq::empty() } else { seq![cur] }) + alnum_runs_from(s.drop_first(), Seq::empty())
    } else {
        alnum_runs_from(s.drop_first(), cur.push(s[0]))
    }
}

/// The folder slug of a title: the runs of ASCII letters and digits of the
/// lower-cased title, joined by `-`.
pub open spec fn slug_of(title: Seq<char>) -> Seq<char> {
    crate::text::join(alnum_runs_from(lowercase(title), Seq::empty()), "-"@)
}

/// Whether a text has the shape of a slug: ASCII letters, digits and dashes,
/// with no dash first, last, or next to another.
pub open spec fn slug_shaped(s: Seq<char>) -> bool {
    &&& forall|i: int| 0 <= i < s.len() ==> ascii_alnum(#[trigger] s[i]) || s[i] == '-'
    &&& s.len() > 0 ==> s[0] != '-' && s[s.len() - 1] != '-'
    &&& forall|i: int| 0 <= i < s.len() - 1 ==> !(#[trigger] s[i] == '-' && s[i + 1] == '-')
}

/// A run of ASCII letters and digits.
pub open spec fn alnum_run(p: Seq<char>) -> bool {
    p.len() > 0 && forall|i: int| 0 <= i < p.len() ==> ascii_alnum(#[trigger] p[i])
}

/// The runs read from `s` are runs of letters and digits.
proof fn lemma_runs_alnum(s: Seq<char>, cur: Seq<char>)
    requires
        forall|i: int| 0 <= i < cur.len() ==> ascii_alnum(#[trigger] cur[i]),
    ensures
        forall|k: int| 0 <= k < alnum_runs_from(s, cur).len() ==> alnum_run(#[trigger] alnum_runs_from(s, cur)[k]),
    decreases s.len(),
{
    if s.len() == 0 {
        if cur.len() > 0 {
            assert(alnum_runs_from(s, cur) == seq![cur]);
            assert(alnum_run(cur));
            assert(seq![cur][0] == cur);
        }
    } else if !ascii_alnum(s[0]) {
        lemma_runs_alnum(s.drop_first(), Seq::empty());
        let head: Seq<Seq<char>> = if cur.len() == 0 { Seq::empty() } else { seq![cur] };
        let rest = alnum_runs_from(s.drop_first(), Seq::empty());
        assert(alnum_runs_from(s, cur) == head + rest);
        if cur.len() > 0 { assert(alnum_run(cur)); }
        assert forall|k: int| 0 <= k < (head + rest).len() implies alnum_run(#[trigger] (head + rest)[k]) by {
            if k < head.len() {
                assert((head + rest)[k] == cur);
            } else {
                assert((head + rest)[k] == rest[k - head.len()]);
            }
        }
    } else {
        let c2 = cur.push(s[0]);
        assert forall|i: int| 0 <= i < c2.len() implies ascii_alnum(#[trigger] c2[i]) by {
            if i < cur.len() { assert(c2[i] == cur[i]); }
        }
        lemma_runs_alnum(s.drop_first(), c2);
        assert(alnum_runs_from(s, cur) == alnum_runs_from(s.drop_first(), c2));
    }
}

/// Runs of letters and digits joined by dashes have the shape of a slug, and
/// are empty only when there are none.
proof fn lemma_join_runs(parts: Seq<Seq<char>>)
    requires
        forall|k: int| 0 <= k < parts.len() ==> alnum_run(#[trigger] parts[k]),
    ensures
        slug_shaped(crate::text::join(parts, "-"@)),
        parts.len() > 0 ==> crate::text::join(parts, "-"@).len() > 0,
    decreases parts.len(),
{
    let j = crate::text::join(parts, "-"@);
    if parts.len() == 0 {
    } else if parts.len() == 1 {
        assert(alnum_run(parts[0]));
    } else {
        let init = parts.drop_last();
        assert forall|k: int| 0 <= k < init.len() implies alnum_run(#[trigger] init[k]) by {
            assert(init[k] == parts[k]);
        }
        lemma_join_runs(init);
        let a = crate::text::join(init, "-"@);
        let b = parts.last();
        assert(alnum_run(parts[parts.len() - 1]));
        assert(j == a + "-"@ + b);
        reveal_strlit("-");
        let n = a.len();
        assert(j.len() == n + 1 + b.len());
        assert forall|i: int| 0 <= i < j.len() implies ascii_alnum(#[trigger] j[i]) || j[i] == '-' by {
            if i < n { assert(j[i] == a[i]); } else if i == n { assert(j[i] == '-'); } else { assert(j[i] == b[i - n - 1]); }
        }
        assert(j[0] == a[0]);
        assert(j[j.len() - 1] == b[b.len() - 1]);
        assert forall|i: int| 0 <= i < j.len() - 1 implies !(#[trigger] j[i] == '-' && j[i + 1] == '-') by {
            if i + 1 < n {
                assert(j[i] == a[i] && j[i + 1] == a[i + 1]);
            } else if i + 1 == n {
                assert(j[i] == a[n - 1]);
            } else if i == n {
                assert(j[i + 1] == b[0]);
            } else {
                assert(j[i] == b[i - n - 1]);
            }
        }
    }
}

/// Every slug has the shape of a slug: ASCII letters, digits and dashes, no
/// dash first, last or doubled.
pub proof fn law_slug_shape(title: Seq<char>)
    ensures
        slug_shaped(slug_of(title)),
{
    lemma_runs_alnum(lowercase(title), Seq::empty());
    lemma_join_runs(alnum_runs_from(lowercase(title), Seq::empty()));
}

/// Generate a slug from a game title (for folder names), using only ASCII
/// letters and digits.
pub fn generate_game_slug(title: &str) -> (r: String)
    ensures
        r@ == slug_of(title@),
{
    let lower = to_lower(title);
    let sv = chars_of(lower.as_str());
    let mut out: Vec<String> = Vec::new();
    let mut cur: Vec<char> = Vec::new();
    let mut i: usize = 0;
    let ghost full = lowercase(title@);
    assert(sv@.skip(0) =~= sv@);
    assert(views(out@) =~= Seq::<Seq<char>>::empty());
    while i < sv.len()
        invariant
            i <= sv.len(),
            sv@ == full,
            alnum_runs_from(full, Seq::empty()) == views(out@) + alnum_runs_from(sv@.skip(i as int), cur@),
        decreases sv.len() - i,
    {
        let ghost rest = sv@.skip(i as int);
        let ghost old_out = views(out@);
        let ghost old_cur = cur@;
        assert(rest.drop_first() =~= sv@.skip(i + 1));
        assert(rest[0] == sv@[i as int]);
        let c = sv[i];
        if !is_ascii_alphanumeric(c) {
            if cur.len() > 0 {
                let w = string_from_chars(cur);
                proof { crate::text::lemma_views_push(out@, w); }
                out.push(w);
                cur = Vec::new();
                let ghost w2 = alnum_runs_from(sv@.skip(i + 1), Seq::empty());
                assert(old_out.push(old_cur) + w2 =~= old_out + (seq![old_cur] + w2));
            } else {
                assert(old_cur =~= Seq::<char>::empty());
                assert(alnum_runs_from(rest, old_cur) =~= alnum_runs_from(sv@.skip(i + 1), Seq::empty()));
            }
        } else {
            cur.push(c);
        }
        i = i + 1;
    }
    assert(sv@.skip(i as int) =~= Seq::<char>::empty());
    if cur.len() > 0 {
        let ghost old_out = views(out@);
        let w = string_from_chars(cur);
        proof { crate::text::lemma_views_push(out@, w); }
        out.push(w);
        assert(views(out@) =~= old_out + seq![w@]);
    } else {
        assert(views(out@) =~= views(out@) + Seq::<Seq<char>>::empty());
    }
    crate::text::str_join(out.as_slice(), "-")
}

/// What `std::collections::hash_map::DefaultHasher::new()` gives for a string
/// hashed with `Hash::hash` and read with `Hasher::finish`.
pub uninterp spec fn default_hash(s: Seq<char>) -> u64;

/// Wraps `DefaultHasher`: the hash of a string.
#[verifier::external_body]
pub fn hash_str(s: &str) -> (h: u64)
    ensures
        h == default_hash(s@),
{
    let mut hasher = std::collections::hash_map::DefaultHasher::new();
    s.hash(&mut hasher);
    hasher.finish()
}

/// The lower-case hexadecimal digit of `d < 16`.
pub open spec fn hex_digit(d: nat) -> char {
    if d < 10 { ((d + 48) as u32) as char } else { ((d + 87) as u32) as char }
}

/// `n` in lower-case hexadecimal without leading zeros (`{:x}`).
pub open spec fn hex_of(n: nat) -> Seq<char>
    decreases n,
{
    if n < 16 { seq![hex_digit(n)] } else { hex_of(n / 16).push(hex_digit(n % 16)) }
}

fn hex_char(d: u64) -> (c: char)
    requires
        d < 16,
    ensures
        c == hex_digit(d as nat),
{
    let table = ['0', '1', '2', '3', '4', '5', '6', '7', '8', '9', 'a', 'b', 'c', 'd', 'e', 'f'];
    let c = table[d as usize];
    assert(c == hex_digit(d as nat)) by {
        assert(('0' as u32) == 48);
        assert(('a' as u32) == 97);
    }
    c
}

/// Format `n` as lower-case hexadecimal.
pub fn to_hex(n: u64) -> (r: String)
    ensures
        r@ == hex_of(n as nat),
{
    let mut digits: Vec<char> = Vec::new();
    let mut m = n;
    while m >= 16
        invariant
            hex_of(n as nat) == hex_of(m as nat) + digits@.reverse(),
        decreases m,
    {
        let d = m % 16;
        let c = hex_char(d);
        let ghost old_digits = digits@;
        digits.push(c);
        proof {
            assert(hex_of(m as nat) == hex_of((m / 16) as nat).push(hex_digit((m % 16) as nat)));
            assert(digits@.reverse() =~= seq![c] + old_digits.reverse());
            assert(hex_of((m / 16) as nat).push(c) + old_digits.reverse()
                =~= hex_of((m / 16) as nat) + (seq![c] + old_digits.reverse()));
        }
        m = m / 16;
    }
    let mut out: Vec<char> = Vec::new();
    out.push(hex_char(m));
    let mut k = digits.len();
    while k > 0
        invariant
            k <= digits.len(),
            out@ == seq![hex_digit(m as nat)] + digits@.subrange(k as int, digits@.len() as int).reverse(),
        decreases k,
    {
        let ghost old_out = out@;
        k = k - 1;
        out.push(digits[k]);
        proof {
            let tail = digits@.subrange(k + 1, digits@.len() as int);
            assert(digits@.subrange(k as int, digits@.len() as int) =~= seq![digits@[k as int]] + tail);
            assert(digits@.subrange(k as int, digits@.len() as int).reverse() =~= tail.reverse().push(digits@[k as int]));
        }
    }
    proof {
        assert(digits@.subrange(0, digits@.len() as int) =~= digits@);
        assert(hex_of(m as nat) == seq![hex_digit(m as nat)]);
    }
    string_from_chars(out)
}

/// Generate the library identifier of a game: the source's slug, `_`, and
/// the hexadecimal hash of the game's identifier at the source.
pub fn generate_library_game_id(source_slug: &str, source_game_id: &str) -> (r: String)
    ensures
        r@ == source_slug@ + "_"@ + hex_of(default_hash(source_game_id@) as nat),
{
    let h = hash_str(source_game_id);
    let hex = to_hex(h);
    concat3(source_slug, "_", hex.as_str())
}

/// Wraps `SystemTime::now().duration_since(UNIX_EPOCH)`: the milliseconds
/// since the Unix epoch, or `None` where the clock reads earlier than it.
/// The value depends on the clock; nothing more is stated of it.
#[verifier::external_body]
fn millis_since_epoch() -> (r: Option<u128>) {
    match std::time::SystemTime::now().duration_since(std::time::UNIX_EPOCH) {
        Ok(d) => Some(d.as_millis()),
        Err(_) => None,
    }
}

/// A timestamp from a reading of the clock: the milliseconds cut to 64 bits,
/// or 0 for a clock set before the epoch.
pub fn timestamp_from_millis(millis: Option<u128>) -> (r: u64)
    ensures
        r == timestamp_from_millis_spec(millis),
{
    match millis {
        Some(m) => m as u64,
        None => 0,
    }
}

/// The current time in milliseconds since the Unix epoch: the clock's
/// reading passed through `timestamp_from_millis` (any value can come back).
pub fn current_timestamp() -> (r: u64) {
    let m = millis_since_epoch();
    timestamp_from_millis(m)
}

/// What `timestamp_from_millis` returns.
pub open spec fn timestamp_from_millis_spec(millis: Option<u128>) -> u64 {
    match millis {
        Some(m) => m as u64,
        None => 0u64,
    }
}

// ---------------------------------------------------------------------------
// The game records
// ---------------------------------------------------------------------------

/// Executables that may be launched (neither installers nor redistributables).
pub open spec fn launchable(e: GameExecutable) -> bool {
    e.exe_type != ExeType::Installer && e.exe_type != ExeType::Redistributable
}

/// `i` is the launchable executable with the highest score, the last of equals.
pub open spec fn is_best_executable(exes: Seq<GameExecutable>, i: int) -> bool {
    &&& 0 <= i < exes.len()
    &&& launchable(exes[i])
    &&& forall|j: int| 0 <= j < exes.len() && launchable(#[trigger] exes[j]) ==> exes[j].score_bits <= exes[i].score_bits
    &&& forall|j: int| i < j < exes.len() && launchable(#[trigger] exes[j]) ==> exes[j].score_bits < exes[i].score_bits
}

/// Whether some executable may be launched.
pub open spec fn any_launchable(exes: Seq<GameExecutable>) -> bool {
    exists|j: int| 0 <= j < exes.len() && launchable(#[trigger] exes[j])
}

/// The index of the best launchable executable.
pub fn best_executable_index(exes: &[GameExecutable]) -> (r: Option<usize>)
    ensures
        match r {
            Some(i) => is_best_executable(exes@, i as int),
            None => !any_launchable(exes@),
        },
{
    let mut best: Option<usize> = None;
    let mut i: usize = 0;
    while i < exes.len()
        invariant
            i <= exes.len(),
            match best {
                Some(b) => b < i && launchable(exes@[b as int])
                    && (forall|j: int| 0 <= j < i && launchable(#[trigger] exes@[j]) ==> exes@[j].score_bits <= exes@[b as int].score_bits)
                    && (forall|j: int| b < j < i && launchable(#[trigger] exes@[j]) ==> exes@[j].score_bits < exes@[b as int].score_bits),
                None => forall|j: int| 0 <= j < i ==> !launchable(#[trigger] exes@[j]),
            },
        decreases exes.len() - i,
    {
        let e = &exes[i];
        if e.exe_type != ExeType::Installer && e.exe_type != ExeType::Redistributable {
            match best {
                Some(b) => {
                    if exes[b].score_bits <= e.score_bits {
                        best = Some(i);
                    }
                },
                None => {
                    best = Some(i);
                },
            }
        }
        i = i + 1;
    }
    best
}

/// The error reported for an unknown game.
pub open spec fn game_not_found(id: Seq<char>) -> Seq<char> {
    "Game not found: "@ + id
}

/// The games of the library, by identifier.
pub struct LibraryGames {
    pub games: Dict<LibraryGame>,
}

impl LibraryGames {
    /// An empty library.
    pub fn new() -> (r: Self)
        ensures
            r.games.view().len() == 0,
    {
        LibraryGames { games: Dict::new() }
    }

    /// Add (or replace) a game under its identifier.
    pub fn add_game(&mut self, game: LibraryGame)
        ensures
            final(self).games.view() == inserted(old(self).games.view(), game.id@, game),
    {
        let id = game.id.clone();
        self.games.insert(id, game);
    }

    /// Replace an existing game; unknown games are refused.
    pub fn update_game(&mut self, game: LibraryGame) -> (r: Result<(), String>)
        ensures
            match index_of_key(old(self).games.view(), game.id@) {
                Some(i) => r is Ok && final(self).games.view() == old(self).games.view().update(i, (game.id@, game)),
                None => r matches Err(e) && e@ == game_not_found(game.id@) && final(self).games.view() == old(self).games.view(),
            },
    {
        match self.games.position(game.id.as_str()) {
            Some(i) => {
                let ghost old_view = self.games.view();
                self.games.assert_unique();
                let id = game.id.clone();
                proof {
                    crate::dict::lemma_index_of_own_key(old_view, i as int);
                }
                self.add_game(game);
                Ok(())
            },
            None => Err(crate::text::concat("Game not found: ", game.id.as_str())),
        }
    }

    /// Remove a game, returning it.
    pub fn remove_game(&mut self, id: &str) -> (r: Option<LibraryGame>)
        ensures
            match index_of_key(old(self).games.view(), id@) {
                Some(i) => r == Some(old(self).games.view()[i].1) && final(self).games.view() == old(self).games.view().remove(i),
                None => r is None && final(self).games.view() == old(self).games.view(),
            },
    {
        self.games.remove(id)
    }

    /// The game with identifier `id`.
    pub fn get_game(&self, id: &str) -> (r: Option<&LibraryGame>)
        ensures
            match r {
                Some(g) => lookup(self.games.view(), id@) == Some(*g),
                None => lookup(self.games.view(), id@) is None,
            },
    {
        self.games.get(id)
    }

    /// The first game (in the library's order) from source `source_slug` with
    /// identifier `source_game_id` there.
    pub fn find_by_source(&self, source_slug: &str, source_game_id: &str) -> (r: Option<&LibraryGame>)
        ensures
            match r {
                Some(g) => exists|i: int| 0 <= i < self.games.view().len() && *g == #[trigger] self.games.view()[i].1
                    && g.source_slug@ == source_slug@ && g.source_game_id@ == source_game_id@
                    && forall|j: int| 0 <= j < i ==> !(#[trigger] self.games.view()[j].1.source_slug@ == source_slug@
                        && self.games.view()[j].1.source_game_id@ == source_game_id@),
                None => forall|j: int| 0 <= j < self.games.view().len() ==> !(#[trigger] self.games.view()[j].1.source_slug@ == source_slug@
                    && self.games.view()[j].1.source_game_id@ == source_game_id@),
            },
    {
        let n = self.games.len();
        let mut i: usize = 0;
        while i < n
            invariant
                i <= n,
                n == self.games.view().len(),
                forall|j: int| 0 <= j < i ==> !(#[trigger] self.games.view()[j].1.source_slug@ == source_slug@
                    && self.games.view()[j].1.source_game_id@ == source_game_id@),
            decreases n - i,
        {
            let g = self.games.value_at(i);
            if str_eq(g.source_slug.as_str(), source_slug) && str_eq(g.source_game_id.as_str(), source_game_id) {
                return Some(g);
            }
            i = i + 1;
        }
        None
    }

    /// The first game (in the library's order) linked to download `download_id`.
    pub fn find_by_download_id(&self, download_id: &str) -> (r: Option<&LibraryGame>)
        ensures
            match r {
                Some(g) => exists|i: int| 0 <= i < self.games.view().len() && *g == #[trigger] self.games.view()[i].1
                    && views(g.download_ids@).contains(download_id@)
                    && forall|j: int| 0 <= j < i ==> !views(#[trigger] self.games.view()[j].1.download_ids@).contains(download_id@),
                None => forall|j: int| 0 <= j < self.games.view().len() ==> !views(#[trigger] self.games.view()[j].1.download_ids@).contains(download_id@),
            },
    {
        let n = self.games.len();
        let mut i: usize = 0;
        while i < n
            invariant
                i <= n,
                n == self.games.view().len(),
                forall|j: int| 0 <= j < i ==> !views(#[trigger] self.games.view()[j].1.download_ids@).contains(download_id@),
            decreases n - i,
        {
            let g = self.games.value_at(i);
            if contains_str(g.download_ids.as_slice(), download_id) {
                return Some(g);
            }
            i = i + 1;
        }
        None
    }

    /// Set a game's status; unknown games are refused.
    pub fn update_status(&mut self, id: &str, status: LibraryGameStatus) -> (r: Result<(), String>)
        ensures
            match index_of_key(old(self).games.view(), id@) {
                Some(i) => r is Ok && final(self).games.view() == old(self).games.view().update(i,
                    (id@, LibraryGame { status, ..old(self).games.view()[i].1 })),
                None => r matches Err(e) && e@ == game_not_found(id@) && final(self).games.view() == old(self).games.view(),
            },
    {
        match self.games.position(id) {
            Some(i) => {
                let ghost old_view = self.games.view();
                self.games.assert_unique();
                let (k, mut g) = self.games.remove_at(i);
                g.status = status;
                proof { crate::dict::lemma_take_put(old_view, i as int, (k@, g)); }
                self.games.insert_at(i, k, g);
                Ok(())
            },
            None => Err(crate::text::concat("Game not found: ", id)),
        }
    }

    /// Set a game's primary executable; unknown games are refused.
    pub fn set_primary_exe(&mut self, id: &str, exe_path: &str) -> (r: Result<(), String>)
        ensures
            match index_of_key(old(self).games.view(), id@) {
                Some(i) => {
                    let n = final(self).games.view()[i].1;
                    &&& r is Ok
                    &&& final(self).games.view() == old(self).games.view().update(i,
                        (id@, LibraryGame { primary_exe: n.primary_exe, ..old(self).games.view()[i].1 }))
                    &&& n.primary_exe matches Some(p) && p@ == exe_path@
                },
                None => r matches Err(e) && e@ == game_not_found(id@) && final(self).games.view() == old(self).games.view(),
            },
    {
        match self.games.position(id) {
            Some(i) => {
                let ghost old_view = self.games.view();
                self.games.assert_unique();
                let (k, mut g) = self.games.remove_at(i);
                g.primary_exe = Some(String::from_str(exe_path));
                proof { crate::dict::lemma_take_put(old_view, i as int, (k@, g)); }
                self.games.insert_at(i, k, g);
                Ok(())
            },
            None => Err(crate::text::concat("Game not found: ", id)),
        }
    }

    /// Replace a game's executables; a game without a primary executable gets
    /// the best launchable one. Unknown games are refused.
    pub fn set_executables(&mut self, id: &str, executables: Vec<GameExecutable>) -> (r: Result<(), String>)
        ensures
            match index_of_key(old(self).games.view(), id@) {
                Some(i) => {
                    let g = old(self).games.view()[i].1;
                    let n = final(self).games.view()[i].1;
                    &&& r is Ok
                    &&& final(self).games.view() == old(self).games.view().update(i,
                        (id@, LibraryGame { executables: n.executables, primary_exe: n.primary_exe, ..g }))
                    &&& n.executables@ == executables@
                    &&& if g.primary_exe is None && any_launchable(executables@) {
                        exists|b: int| is_best_executable(executables@, b)
                            && n.primary_exe == Some(executables@[b].path)
                    } else {
                        n.primary_exe == g.primary_exe
                    }
                },
                None => r matches Err(e) && e@ == game_not_found(id@) && final(self).games.view() == old(self).games.view(),
            },
    {
        match self.games.position(id) {
            Some(i) => {
                let ghost old_view = self.games.view();
                self.games.assert_unique();
                let (k, mut g) = self.games.remove_at(i);
                if g.primary_exe.is_none() && executables.len() > 0 {
                    match best_executable_index(executables.as_slice()) {
                        Some(b) => {
                            g.primary_exe = Some(executables[b].path.clone());
                        },
                        None => {},
                    }
                }
                g.executables = executables;
                proof { crate::dict::lemma_take_put(old_view, i as int, (k@, g)); }
                self.games.insert_at(i, k, g);
                Ok(())
            },
            None => Err(crate::text::concat("Game not found: ", id)),
        }
    }

    /// Record a game's installed size; unknown games are ignored.
    pub fn set_install_size(&mut self, id: &str, size: u64)
        ensures
            match index_of_key(old(self).games.view(), id@) {
                Some(i) => final(self).games.view() == old(self).games.view().update(i,
                    (id@, LibraryGame { install_size: size, ..old(self).games.view()[i].1 })),
                None => final(self).games.view() == old(self).games.view(),
            },
    {
        match self.games.position(id) {
            Some(i) => {
                let ghost old_view = self.games.view();
                self.games.assert_unique();
                let (k, mut g) = self.games.remove_at(i);
                g.install_size = size;
                proof { crate::dict::lemma_take_put(old_view, i as int, (k@, g)); }
                self.games.insert_at(i, k, g);
            },
            None => {},
        }
    }

    /// Add played time and record when the game was last played (`now_secs`);
    /// unknown games are ignored.
    pub fn update_playtime(&mut self, id: &str, additional_seconds: u64, now_secs: u64)
        requires
            match lookup(old(self).games.view(), id@) {
                Some(g) => g.total_playtime + additional_seconds <= u64::MAX,
                None => true,
            },
        ensures
            match index_of_key(old(self).games.view(), id@) {
                Some(i) => final(self).games.view() == old(self).games.view().update(i,
                    (id@, LibraryGame {
                        total_playtime: (old(self).games.view()[i].1.total_playtime + additional_seconds) as u64,
                        last_played: Some(now_secs),
                        ..old(self).games.view()[i].1
                    })),
                None => final(self).games.view() == old(self).games.view(),
            },
    {
        match self.games.position(id) {
            Some(i) => {
                let ghost old_view = self.games.view();
                self.games.assert_unique();
                let (k, mut g) = self.games.remove_at(i);
                g.total_playtime = g.total_playtime + additional_seconds;
                g.last_played = Some(now_secs);
                proof { crate::dict::lemma_take_put(old_view, i as int, (k@, g)); }
                self.games.insert_at(i, k, g);
            },
            None => {},
        }
    }

    /// Link a download to a game, once; unknown games are ignored.
    pub fn add_download_id(&mut self, id: &str, download_id: &str)
        ensures
            match index_of_key(old(self).games.view(), id@) {
                Some(i) => {
                    let g = old(self).games.view()[i].1;
                    let n = final(self).games.view()[i].1;
                    &&& final(self).games.view() == old(self).games.view().update(i, (id@, LibraryGame { download_ids: n.download_ids, ..g }))
                    &&& views(n.download_ids@) == if views(g.download_ids@).contains(download_id@) {
                        views(g.download_ids@)
                    } else {
                        views(g.download_ids@).push(download_id@)
                    }
                },
                None => final(self).games.view() == old(self).games.view(),
            },
    {
        match self.games.position(id) {
            Some(i) => {
                let ghost old_view = self.games.view();
                self.games.assert_unique();
                let (k, mut g) = self.games.remove_at(i);
                if !contains_str(g.download_ids.as_slice(), download_id) {
                    let d = String::from_str(download_id);
                    proof { crate::text::lemma_views_push(g.download_ids@, d); }
                    g.download_ids.push(d);
                }
                proof { crate::dict::lemma_take_put(old_view, i as int, (k@, g)); }
                self.games.insert_at(i, k, g);
            },
            None => {},
        }
    }

    /// Record where a game's cover is cached; unknown games are ignored.
    pub fn set_cover_path(&mut self, id: &str, path: &str)
        ensures
            match index_of_key(old(self).games.view(), id@) {
                Some(i) => {
                    let n = final(self).games.view()[i].1;
                    &&& final(self).games.view() == old(self).games.view().update(i,
                        (id@, LibraryGame { cover_path: n.cover_path, ..old(self).games.view()[i].1 }))
                    &&& n.cover_path matches Some(p) && p@ == path@
                },
                None => final(self).games.view() == old(self).games.view(),
            },
    {
        match self.games.position(id) {
            Some(i) => {
                let ghost old_view = self.games.view();
                self.games.assert_unique();
                let (k, mut g) = self.games.remove_at(i);
                g.cover_path = Some(String::from_str(path));
                proof { crate::dict::lemma_take_put(old_view, i as int, (k@, g)); }
                self.games.insert_at(i, k, g);
            },
            None => {},
        }
    }

    /// Set a game's cover URL and drop its cached cover; unknown games are refused.
    pub fn set_cover_url(&mut self, id: &str, url: &str) -> (r: Result<(), String>)
        ensures
            match index_of_key(old(self).games.view(), id@) {
                Some(i) => {
                    let n = final(self).games.view()[i].1;
                    &&& r is Ok
                    &&& final(self).games.view() == old(self).games.view().update(i,
                        (id@, LibraryGame { cover_url: n.cover_url, cover_path: None, ..old(self).games.view()[i].1 }))
                    &&& n.cover_url matches Some(u) && u@ == url@
                },
                None => r matches Err(e) && e@ == game_not_found(id@) && final(self).games.view() == old(self).games.view(),
            },
    {
        match self.games.position(id) {
            Some(i) => {
                let ghost old_view = self.games.view();
                self.games.assert_unique();
                let (k, mut g) = self.games.remove_at(i);
                g.cover_url = Some(String::from_str(url));
                g.cover_path = None;
                proof { crate::dict::lemma_take_put(old_view, i as int, (k@, g)); }
                self.games.insert_at(i, k, g);
                Ok(())
            },
            None => Err(crate::text::concat("Game not found: ", id)),
        }
    }

    /// Set or clear a game's archive password; unknown games are refused.
    pub fn set_archive_password(&mut self, id: &str, password: Option<String>) -> (r: Result<(), String>)
        ensures
            match index_of_key(old(self).games.view(), id@) {
                Some(i) => r is Ok && final(self).games.view() == old(self).games.view().update(i,
                    (id@, LibraryGame { archive_password: password, ..old(self).games.view()[i].1 })),
                None => r matches Err(e) && e@ == game_not_found(id@) && final(self).games.view() == old(self).games.view(),
            },
    {
        match self.games.position(id) {
            Some(i) => {
                let ghost old_view = self.games.view();
                self.games.assert_unique();
                let (k, mut g) = self.games.remove_at(i);
                g.archive_password = password;
                proof { crate::dict::lemma_take_put(old_view, i as int, (k@, g)); }
                self.games.insert_at(i, k, g);
                Ok(())
            },
            None => Err(crate::text::concat("Game not found: ", id)),
        }
    }
}

/// Whether `s` is among the strings.
pub fn contains_str(v: &[String], s: &str) -> (b: bool)
    ensures
        b == views(v@).contains(s@),
{
    let mut i: usize = 0;
    while i < v.len()
        invariant
            i <= v.len(),
            forall|j: int| 0 <= j < i ==> v@[j]@ != s@,
        decreases v.len() - i,
    {
        if str_eq(v[i].as_str(), s) {
            assert(views(v@)[i as int] == s@);
            return true;
        }
        i = i + 1;
    }
    proof {
        if views(v@).contains(s@) {
            let j = choose|j: int| 0 <= j < views(v@).len() && views(v@)[j] == s@;
            assert(v@[j]@ == s@);
        }
    }
    false
}


/// A game added to the library is found under its identifier, and a game
/// removed from it is not; other games are left as they were.
pub proof fn law_add_then_remove(games: Seq<(Seq<char>, LibraryGame)>, g: LibraryGame, other: Seq<char>)
    requires
        crate::dict::keys_unique(games),
        other != g.id@,
    ensures
        lookup(inserted(games, g.id@, g), g.id@) == Some(g),
        ({
            let added = inserted(games, g.id@, g);
            let removed = match index_of_key(added, g.id@) {
                Some(i) => added.remove(i),
                None => added,
            };
            lookup(removed, g.id@) is None && lookup(removed, other) == lookup(games, other)
        }),
{
    crate::dict::law_lookup_inserted(games, g.id@, g, g.id@);
    crate::dict::law_lookup_inserted(games, g.id@, g, other);
    crate::dict::law_lookup_removed(inserted(games, g.id@, g), g.id@, other);
}

} // verus!
