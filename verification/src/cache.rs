//! The single-slot color cache: one persisted entry, valid for a request
//! exactly when the wallpaper path matches bit for bit and the wallpaper
//! file's modification time still equals the stored one. Anything else —
//! another path, another time, an unreadable wallpaper, a missing or
//! unreadable cache — is a miss, never an error.

use vstd::prelude::*;
use crate::palette::{ColorEntry, ColorEntryV, colors_view, extract_colors, palette_of_json,
    select_spec};

verus! {

/// The one persisted cache record.
pub struct CacheEntry {
    pub wallpaper_path: String,
    /// Whole seconds since the epoch, as the filesystem reported them.
    pub wallpaper_mtime: u64,
    pub colors: Vec<ColorEntry>,
}

/// The mathematical image of a cache record.
pub struct CacheEntryV {
    pub wallpaper_path: Seq<char>,
    pub wallpaper_mtime: u64,
    pub colors: Seq<ColorEntryV>,
}

impl View for CacheEntry {
    type V = CacheEntryV;

    open spec fn view(&self) -> CacheEntryV {
        CacheEntryV {
            wallpaper_path: self.wallpaper_path@,
            wallpaper_mtime: self.wallpaper_mtime,
            colors: colors_view(self.colors@),
        }
    }
}

/// The cache file's text, read as JSON: the entry's three fields, or nothing
/// when the text is not a well-formed entry — a torn or malformed file is
/// indistinguishable from an absent one. A function of the text alone.
pub uninterp spec fn cache_of_json(s: Seq<char>) -> Option<CacheEntryV>;

/// Relies on serde_json::from_str, Value::get, Value::as_str, Value::as_u64
/// and Value::as_object: reads the persisted entry back, deterministically
/// in the text, and fails rather than panics on any malformed input.
#[verifier::external_body]
fn read_cache_json(s: &str) -> (r: Option<CacheEntry>)
    ensures
        (r is Some) == (cache_of_json(s@) is Some),
        r matches Some(e) ==> cache_of_json(s@) == Some(e@),
{
    let parsed: serde_json::Value = serde_json::from_str(s).ok()?;
    let path = parsed.get("wallpaper_path")?.as_str()?.to_string();
    let mtime = parsed.get("wallpaper_mtime")?.as_u64()?;
    let obj = parsed.get("colors")?.as_object()?;
    let mut colors = Vec::new();
    for (key, val) in obj {
        colors.push(ColorEntry { name: key.clone(), value: val.as_str()?.to_string() });
    }
    Some(CacheEntry { wallpaper_path: path, wallpaper_mtime: mtime, colors })
}

/// A stored entry answers a request iff the requested path equals the stored
/// one exactly and the wallpaper's current modification time is known and
/// equals the stored one.
pub open spec fn entry_matches(e: CacheEntryV, path: Seq<char>, current_mtime: Option<u64>) -> bool {
    e.wallpaper_path == path && current_mtime == Some(e.wallpaper_mtime)
}

/// What a parsed cache yields for a request: the stored colors on a match,
/// else nothing.
pub open spec fn lookup_entry_spec(
    e: Option<CacheEntryV>,
    path: Seq<char>,
    current_mtime: Option<u64>,
) -> Option<Seq<ColorEntryV>> {
    match e {
        Some(entry) => if entry_matches(entry, path, current_mtime) {
            Some(entry.colors)
        } else {
            None
        },
        None => None,
    }
}

/// The view of the cache file's text, where one was readable.
pub open spec fn opt_text_view(t: Option<&str>) -> Option<Seq<char>> {
    match t {
        Some(s) => Some(s@),
        None => None,
    }
}

/// What the whole lookup yields: nothing without a readable cache file, else
/// what the parsed entry yields.
pub open spec fn lookup_spec(
    text: Option<Seq<char>>,
    path: Seq<char>,
    current_mtime: Option<u64>,
) -> Option<Seq<ColorEntryV>> {
    match text {
        Some(t) => lookup_entry_spec(cache_of_json(t), path, current_mtime),
        None => None,
    }
}

/// Whether two pieces of text are the same characters.
pub fn str_eq(a: &str, b: &str) -> (r: bool)
    ensures
        r == (a@ == b@),
{
    let n = a.unicode_len();
    if n != b.unicode_len() {
        return false;
    }
    let mut i: usize = 0;
    while i < n
        invariant
            i <= n,
            n == a@.len(),
            n == b@.len(),
            forall|k: int| 0 <= k < i ==> a@[k] == b@[k],
        decreases n - i,
    {
        if a.get_char(i) != b.get_char(i) {
            return false;
        }
        i = i + 1;
    }
    proof {
        assert(a@ =~= b@);
    }
    true
}

/// Consult the cache file's text, if any was readable, for the colors of
/// `wallpaper_path` whose file currently shows `current_mtime`: the stored
/// colors iff the text parses to an entry that matches; every failure on the
/// way is a miss.
pub fn lookup_colors(
    cache_text: Option<&str>,
    wallpaper_path: &str,
    current_mtime: Option<u64>,
) -> (r: Option<Vec<ColorEntry>>)
    ensures
        match r {
            Some(c) => lookup_spec(opt_text_view(cache_text), wallpaper_path@, current_mtime)
                == Some(colors_view(c@)),
            None => lookup_spec(opt_text_view(cache_text), wallpaper_path@, current_mtime)
                is None,
        },
{
    let text = match cache_text {
        Some(t) => t,
        None => {
            return None;
        },
    };
    let entry = match read_cache_json(text) {
        Some(e) => e,
        None => {
            return None;
        },
    };
    if !str_eq(entry.wallpaper_path.as_str(), wallpaper_path) {
        return None;
    }
    let current = match current_mtime {
        Some(m) => m,
        None => {
            return None;
        },
    };
    if entry.wallpaper_mtime != current {
        return None;
    }
    Some(entry.colors)
}

/// The entry persisted after a successful extraction: the requested path,
/// the wallpaper's current modification time, and the extracted colors.
pub fn make_cache_entry(wallpaper_path: &str, wallpaper_mtime: u64, colors: Vec<ColorEntry>) -> (e:
    CacheEntry)
    ensures
        e@ == (CacheEntryV {
            wallpaper_path: wallpaper_path@,
            wallpaper_mtime,
            colors: colors_view(colors@),
        }),
{
    CacheEntry { wallpaper_path: String::from_str(wallpaper_path), wallpaper_mtime, colors }
}

/// What a miss leads to, once the extraction tool has answered.
pub enum Refresh {
    /// No usable report came back: no colors, nothing persisted, and the
    /// caller falls back to defaults.
    Unavailable,
    /// Colors came back, but with the wallpaper's modification time
    /// unreadable nothing can be persisted.
    Volatile(Vec<ColorEntry>),
    /// Colors came back; the entry carries them and is to be persisted.
    Persisted(CacheEntry),
}

/// The colors an extraction report yields: the selected palette when the
/// report parses, else nothing.
pub open spec fn refresh_spec(report: Option<Seq<char>>) -> Option<Seq<ColorEntryV>> {
    match report {
        None => None,
        Some(t) => match palette_of_json(t) {
            Some(raws) => Some(select_spec(raws)),
            None => None,
        },
    }
}

/// Settle a cache miss from the extraction tool's answer: no report or an
/// unusable one yields nothing; otherwise the selected colors, persisted
/// under the requested path and the wallpaper's current modification time
/// where that time is known.
pub fn refresh_colors(wallpaper_path: &str, current_mtime: Option<u64>, report: Option<&str>) -> (r:
    Refresh)
    ensures
        match r {
            Refresh::Unavailable => refresh_spec(opt_text_view(report)) is None,
            Refresh::Volatile(c) => current_mtime is None && refresh_spec(opt_text_view(report))
                == Some(colors_view(c@)),
            Refresh::Persisted(e) => current_mtime == Some(e.wallpaper_mtime)
                && e@.wallpaper_path == wallpaper_path@ && refresh_spec(opt_text_view(report))
                == Some(e@.colors),
        },
{
    let text = match report {
        Some(t) => t,
        None => {
            return Refresh::Unavailable;
        },
    };
    let colors = match extract_colors(text) {
        Some(c) => c,
        None => {
            return Refresh::Unavailable;
        },
    };
    match current_mtime {
        Some(m) => Refresh::Persisted(make_cache_entry(wallpaper_path, m, colors)),
        None => Refresh::Volatile(colors),
    }
}

/// Relies on dirs::cache_dir: the platform's cache directory, an
/// environment-dependent location of which nothing further holds.
#[verifier::external_body]
fn platform_cache_dir() -> (r: Option<String>) {
    dirs::cache_dir().and_then(|p| p.to_str().map(|s| s.to_string()))
}

/// Where the cache file lives: a fixed subpath below the platform's cache
/// directory, or nothing where the platform names no such directory.
pub fn cache_file_path() -> (r: Option<String>)
    ensures
        r matches Some(p) ==> exists|base: Seq<char>|
            p@ == base + "/matuwrap/colors.json"@,
{
    match platform_cache_dir() {
        Some(base) => {
            let ghost base_view = base@;
            let mut s = base;
            s.append("/matuwrap/colors.json");
            assert(s@ == base_view + "/matuwrap/colors.json"@);
            Some(s)
        },
        None => None,
    }
}

/// While a wallpaper's path and modification time are unchanged, the entry
/// stored for it answers the next request: the lookup hits and the
/// extraction tool need not run again.
pub proof fn lemma_unchanged_wallpaper_hits(e: CacheEntryV)
    ensures
        lookup_entry_spec(Some(e), e.wallpaper_path, Some(e.wallpaper_mtime)) == Some(e.colors),
{
}

/// Across two calls: when the store hands back text that still reads as the
/// entry the first call persisted, a second request for the same path with
/// an unchanged modification time is answered from the cache alone — the
/// extraction tool is not consulted again.
pub proof fn lemma_second_call_hits(e: CacheEntryV, t: Seq<char>)
    ensures
        cache_of_json(t) == Some(e) ==> lookup_spec(
            Some(t),
            e.wallpaper_path,
            Some(e.wallpaper_mtime),
        ) == Some(e.colors),
{
}

/// A changed modification time invalidates the entry, even for the same
/// path: the lookup misses and extraction runs again.
pub proof fn lemma_changed_mtime_misses(e: CacheEntryV, path: Seq<char>, current_mtime: Option<
    u64,
>)
    requires
        current_mtime != Some(e.wallpaper_mtime),
    ensures
        lookup_entry_spec(Some(e), path, current_mtime) is None,
{
}

/// A changed wallpaper path invalidates the entry, even with an unchanged
/// modification time value.
pub proof fn lemma_changed_path_misses(e: CacheEntryV, path: Seq<char>, current_mtime: Option<
    u64,
>)
    requires
        path != e.wallpaper_path,
    ensures
        lookup_entry_spec(Some(e), path, current_mtime) is None,
{
}

/// Whatever text a torn, truncated or malformed cache file holds, a lookup
/// that can read no entry from it misses cleanly — the lookup neither
/// errors nor panics, it only finds nothing.
pub proof fn lemma_unreadable_cache_misses(t: Seq<char>, path: Seq<char>, current_mtime: Option<
    u64,
>)
    ensures
        cache_of_json(t) is None ==> lookup_spec(Some(t), path, current_mtime) is None,
{
}

/// After invalidation no cache text exists, so every lookup misses and
/// extraction runs again, whatever went before.
pub proof fn lemma_invalidated_misses(path: Seq<char>, current_mtime: Option<u64>)
    ensures
        lookup_spec(None, path, current_mtime) is None,
{
}

} // verus!
