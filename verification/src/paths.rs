//! Where the launcher keeps its state, below the home directory.
//!
//! Paths are handled as text; the home directory itself is read from the
//! environment by the caller (see `launcher::home_dir_from`).

use vstd::prelude::*;

use crate::fmt::{owned, push_str, string_push};

verus! {

/// `base` joined with the relative path `part`, as `Path::join` does on
/// Unix: a `/` goes between them unless `base` is empty or already ends
/// with one.
pub open spec fn join_rel(base: Seq<char>, part: Seq<char>) -> Seq<char> {
    if base.len() > 0 && base.last() != '/' {
        base + seq!['/'] + part
    } else {
        base + part
    }
}

/// `base` joined with the relative path `part` (which does not start with
/// `/`).
pub fn join_path(base: &str, part: &str) -> (r: String)
    requires
        part@.len() == 0 || part@[0] != '/',
    ensures
        r@ == join_rel(base@, part@),
{
    let mut r = owned(base);
    let n = base.unicode_len();
    if n > 0 && base.get_char(n - 1) != '/' {
        string_push(&mut r, '/');
    }
    push_str(&mut r, part);
    r
}

/// `base` joined with `part` as `Path::join` does on Unix: an absolute
/// `part` replaces `base`.
pub open spec fn join(base: Seq<char>, part: Seq<char>) -> Seq<char> {
    if part.len() > 0 && part[0] == '/' { part } else { join_rel(base, part) }
}

/// `base` joined with `part` (an absolute `part` replaces `base`).
pub fn join_any(base: &str, part: &str) -> (r: String)
    ensures
        r@ == join(base@, part@),
{
    if part.unicode_len() > 0 && part.get_char(0) == '/' {
        owned(part)
    } else {
        join_path(base, part)
    }
}

/// `<home>/.cartridges`: the root of all persisted state (settings, app
/// data, installed apps, boot state).
pub fn cartridges_dir(home: &str) -> (r: String)
    ensures
        r@ == join_rel(home@, ".cartridges"@),
{
    proof { reveal_strlit(".cartridges"); }
    join_path(home, ".cartridges")
}

/// `<home>/.cartridges/apps`: store-installed cartridges.
pub fn installed_apps_dir(home: &str) -> (r: String)
    ensures
        r@ == join_rel(join_rel(home@, ".cartridges"@), "apps"@),
{
    let root = cartridges_dir(home);
    proof { reveal_strlit("apps"); }
    join_path(root.as_str(), "apps")
}

/// `<home>/.ssh`: scanned for well-known SSH keys.
pub fn ssh_dir(home: &str) -> (r: String)
    ensures
        r@ == join_rel(home@, ".ssh"@),
{
    proof { reveal_strlit(".ssh"); }
    join_path(home, ".ssh")
}

/// `<home>/.cartridges/<app_id>/data`: where an app's stored values go (an
/// absolute `app_id` is used as the app's directory itself).
pub fn storage_data_dir(home: &str, app_id: &str) -> (r: String)
    ensures
        r@ == join_rel(join(join_rel(home@, ".cartridges"@), app_id@), "data"@),
{
    let root = cartridges_dir(home);
    let app = join_any(root.as_str(), app_id);
    proof { reveal_strlit("data"); }
    join_path(app.as_str(), "data")
}

/// `<home>/.cartridges/<app_id>/cache`: an app's cache (an absolute
/// `app_id` is used as the app's directory itself).
pub fn storage_cache_dir(home: &str, app_id: &str) -> (r: String)
    ensures
        r@ == join_rel(join(join_rel(home@, ".cartridges"@), app_id@), "cache"@),
{
    let root = cartridges_dir(home);
    let app = join_any(root.as_str(), app_id);
    proof { reveal_strlit("cache"); }
    join_path(app.as_str(), "cache")
}

/// The file holding stored value `key`: `<key>.json`.
pub fn storage_file(key: &str) -> (r: String)
    ensures
        r@ == key@ + ".json"@,
{
    let mut r = owned(key);
    push_str(&mut r, ".json");
    r
}

/// Index of the last `.` in `s`, if any.
pub open spec fn last_dot(s: Seq<char>) -> Option<int> {
    if exists|i: int| 0 <= i < s.len() && s[i] == '.' {
        Some(choose|i: int| 0 <= i < s.len() && s[i] == '.' && forall|j: int| i < j < s.len() ==> s[j] != '.')
    } else {
        None
    }
}

/// The key stored in a file of this name: the name without `.json`, as
/// `Path::file_stem` gives it when `Path::extension` is `json` (a name
/// that is only a dot and an extension, like `.json`, has none).
pub open spec fn json_key_of(name: Seq<char>) -> Option<Seq<char>> {
    match last_dot(name) {
        Some(d) => if d > 0 && name.skip(d + 1) == "json"@ { Some(name.take(d)) } else { None },
        None => None,
    }
}

/// The key stored in the file `name`, if it is a `.json` file.
pub fn json_key(name: &str) -> (r: Option<&str>)
    ensures
        match r {
            Some(k) => json_key_of(name@) == Some(k@),
            None => json_key_of(name@) is None,
        },
{
    let n = name.unicode_len();
    let mut k: usize = n;
    while k > 0 && name.get_char(k - 1) != '.'
        invariant
            n == name@.len(),
            k <= n,
            forall|j: int| k <= j < n ==> name@[j] != '.',
        decreases k,
    {
        k -= 1;
    }
    let ghost s = name@;
    if k == 0 {
        assert forall|i: int| 0 <= i < s.len() implies s[i] != '.' by {}
        return None;
    }
    let d = k - 1;
    proof {
        let w = choose|i: int| 0 <= i < s.len() && s[i] == '.' && forall|j: int| i < j < s.len() ==> s[j] != '.';
        assert(s[d as int] == '.' && forall|j: int| d < j < s.len() ==> s[j] != '.');
        if w < d {
            assert(s[d as int] != '.');
        }
        if w > d {
            assert(s[w] != '.');
        }
        assert(last_dot(s) == Some(d as int));
        reveal_strlit("json");
    }
    let ext = name.substring_char(k, n);
    assert(ext@ =~= s.skip(d + 1));
    if d > 0 && crate::strs::str_eq(ext, "json") {
        let stem = name.substring_char(0, d);
        assert(stem@ =~= s.take(d as int));
        Some(stem)
    } else {
        None
    }
}

} // verus!
