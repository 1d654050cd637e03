//! Derivation of file names and of the pipeline's well-known paths.
//!
//! Paths are plain strings here; the embedding application converts them to
//! platform path values at its edge. The shortcut and preferences locations
//! are derived from their base directories by one fixed naming scheme, so
//! that creation and removal always agree on the same artifact paths.

use vstd::prelude::*;

verus! {

/// A path separator: forward or backward slash.
pub open spec fn is_sep(c: char) -> bool {
    c == '/' || c == '\\'
}

/// The segment of `s` after its last `/`; all of `s` when it has none.
pub open spec fn tail_after_last_slash(s: Seq<char>) -> Seq<char>
    decreases s.len(),
{
    if s.len() == 0 {
        s
    } else if s[s.len() - 1] == '/' {
        Seq::empty()
    } else {
        tail_after_last_slash(s.drop_last()).push(s[s.len() - 1])
    }
}

/// The segment of `s` after its last separator; all of `s` when it has none.
pub open spec fn tail_after_last_sep(s: Seq<char>) -> Seq<char>
    decreases s.len(),
{
    if s.len() == 0 {
        s
    } else if is_sep(s[s.len() - 1]) {
        Seq::empty()
    } else {
        tail_after_last_sep(s.drop_last()).push(s[s.len() - 1])
    }
}

/// `s` with every trailing separator removed.
pub open spec fn trim_trailing_seps(s: Seq<char>) -> Seq<char>
    decreases s.len(),
{
    if s.len() == 0 {
        s
    } else if is_sep(s[s.len() - 1]) {
        trim_trailing_seps(s.drop_last())
    } else {
        s
    }
}

/// The file name a download stored at `url` is given: the segment after the
/// last `/`, or `installer.bin` when that segment is empty.
pub open spec fn url_file_name(url: Seq<char>) -> Seq<char> {
    if tail_after_last_slash(url).len() == 0 {
        "installer.bin"@
    } else {
        tail_after_last_slash(url)
    }
}

/// The file-name component of a path: the non-trivial segment after the
/// last separator, once trailing separators are dropped. A path that ends
/// in nothing, `.` or `..` has none — this library's own scheme, which for
/// a path ending in a separator plus `.` reports no file name where the
/// platform's resolver would name the preceding component.
pub open spec fn path_file_name(path: Seq<char>) -> Option<Seq<char>> {
    let seg = tail_after_last_sep(trim_trailing_seps(path));
    if seg.len() == 0 || seg == seq!['.'] || seg == seq!['.', '.'] {
        None
    } else {
        Some(seg)
    }
}

/// The directory part of a path: what stands before the last separator,
/// once trailing separators are dropped. A path without a separator has
/// none.
pub open spec fn parent_of(path: Seq<char>) -> Option<Seq<char>> {
    let t = trim_trailing_seps(path);
    if t.len() == 0 || tail_after_last_sep(t).len() == t.len() {
        None
    } else {
        Some(t.subrange(0, t.len() - tail_after_last_sep(t).len() - 1))
    }
}

/// A slash after position `k` contradicts `tail_after_last_slash` being the
/// suffix from `k + 1` on; with none, they coincide.
proof fn lemma_tail_slash_at(s: Seq<char>, k: int)
    requires
        0 <= k < s.len(),
        s[k] == '/',
        forall|j: int| k < j < s.len() ==> s[j] != '/',
    ensures
        tail_after_last_slash(s) =~= s.subrange(k + 1, s.len() as int),
    decreases s.len(),
{
    if k == s.len() - 1 {
    } else {
        lemma_tail_slash_at(s.drop_last(), k);
    }
}

/// A string without any slash is its own tail.
proof fn lemma_tail_no_slash(s: Seq<char>)
    requires
        forall|j: int| 0 <= j < s.len() ==> s[j] != '/',
    ensures
        tail_after_last_slash(s) =~= s,
    decreases s.len(),
{
    if s.len() > 0 {
        lemma_tail_no_slash(s.drop_last());
    }
}

/// As `lemma_tail_slash_at`, for either separator.
proof fn lemma_tail_sep_at(s: Seq<char>, k: int)
    requires
        0 <= k < s.len(),
        is_sep(s[k]),
        forall|j: int| k < j < s.len() ==> !is_sep(s[j]),
    ensures
        tail_after_last_sep(s) =~= s.subrange(k + 1, s.len() as int),
    decreases s.len(),
{
    if k == s.len() - 1 {
    } else {
        lemma_tail_sep_at(s.drop_last(), k);
    }
}

/// A string without any separator is its own tail.
proof fn lemma_tail_no_sep(s: Seq<char>)
    requires
        forall|j: int| 0 <= j < s.len() ==> !is_sep(s[j]),
    ensures
        tail_after_last_sep(s) =~= s,
    decreases s.len(),
{
    if s.len() > 0 {
        lemma_tail_no_sep(s.drop_last());
    }
}

/// Trimming stops at the last non-separator position.
proof fn lemma_trim_at(s: Seq<char>, i: int)
    requires
        0 <= i <= s.len(),
        forall|j: int| i <= j < s.len() ==> is_sep(s[j]),
        i > 0 ==> !is_sep(s[i - 1]),
    ensures
        trim_trailing_seps(s) =~= s.subrange(0, i),
    decreases s.len(),
{
    if i == s.len() {
        if s.len() > 0 {
        }
    } else {
        lemma_trim_at(s.drop_last(), i);
    }
}

/// Find the position of the last `/` of `s`, if it has one.
fn find_last_slash(s: &str) -> (r: Option<usize>)
    ensures
        match r {
            Some(k) => k < s@.len() && s@[k as int] == '/' && forall|j: int|
                k < j < s@.len() ==> s@[j] != '/',
            None => forall|j: int| 0 <= j < s@.len() ==> s@[j] != '/',
        },
{
    let n = s.unicode_len();
    let mut i = n;
    while i > 0
        invariant
            i <= n,
            n == s@.len(),
            forall|j: int| i <= j < s@.len() ==> s@[j] != '/',
        decreases i,
    {
        i = i - 1;
        if s.get_char(i) == '/' {
            return Some(i);
        }
    }
    None
}

/// Find the position of the last separator of `s`, if it has one.
fn find_last_sep(s: &str) -> (r: Option<usize>)
    ensures
        match r {
            Some(k) => k < s@.len() && is_sep(s@[k as int]) && forall|j: int|
                k < j < s@.len() ==> !is_sep(s@[j]),
            None => forall|j: int| 0 <= j < s@.len() ==> !is_sep(s@[j]),
        },
{
    let n = s.unicode_len();
    let mut i = n;
    while i > 0
        invariant
            i <= n,
            n == s@.len(),
            forall|j: int| i <= j < s@.len() ==> !is_sep(s@[j]),
        decreases i,
    {
        i = i - 1;
        let c = s.get_char(i);
        if c == '/' || c == '\\' {
            return Some(i);
        }
    }
    None
}

/// Whether the character is a path separator.
fn is_sep_char(c: char) -> (r: bool)
    ensures
        r == is_sep(c),
{
    c == '/' || c == '\\'
}

/// `s` without its trailing separators.
fn trim_end_seps(s: &str) -> (t: &str)
    ensures
        t@ == trim_trailing_seps(s@),
{
    let n = s.unicode_len();
    let mut i = n;
    while i > 0 && is_sep_char(s.get_char(i - 1))
        invariant
            i <= n,
            n == s@.len(),
            forall|j: int| i <= j < s@.len() ==> is_sep(s@[j]),
        decreases i,
    {
        i = i - 1;
    }
    proof {
        lemma_trim_at(s@, i as int);
    }
    s.substring_char(0, i)
}

/// Derive the file name for a payload downloaded from `url`: the segment
/// after the last `/`, or `installer.bin` when the URL ends in a slash or
/// is empty.
pub fn file_name_from_url(url: &str) -> (name: String)
    ensures
        name@ == url_file_name(url@),
{
    let n = url.unicode_len();
    match find_last_slash(url) {
        Some(k) => {
            proof {
                lemma_tail_slash_at(url@, k as int);
            }
            if k + 1 == n {
                String::from_str("installer.bin")
            } else {
                String::from_str(url.substring_char(k + 1, n))
            }
        },
        None => {
            proof {
                lemma_tail_no_slash(url@);
            }
            if n == 0 {
                String::from_str("installer.bin")
            } else {
                String::from_str(url)
            }
        },
    }
}

/// Derive the file-name component of `path` under the library's naming
/// scheme, or report that it has none.
pub fn file_name_of_path(path: &str) -> (r: Option<String>)
    ensures
        match r {
            Some(name) => path_file_name(path@) == Some(name@),
            None => path_file_name(path@) is None,
        },
{
    let t = trim_end_seps(path);
    let n = t.unicode_len();
    let seg = match find_last_sep(t) {
        Some(k) => {
            proof {
                lemma_tail_sep_at(t@, k as int);
            }
            t.substring_char(k + 1, n)
        },
        None => {
            proof {
                lemma_tail_no_sep(t@);
            }
            t
        },
    };
    let m = seg.unicode_len();
    if m == 0 {
        None
    } else if m == 1 && seg.get_char(0) == '.' {
        proof {
            assert(seg@ =~= seq!['.']);
        }
        None
    } else if m == 2 && seg.get_char(0) == '.' && seg.get_char(1) == '.' {
        proof {
            assert(seg@ =~= seq!['.', '.']);
        }
        None
    } else {
        proof {
            assert(seg@ != seq!['.'] && seg@ != seq!['.', '.']) by {
                if seg@ == seq!['.'] {
                    assert(seg@.len() == 1);
                }
                if seg@ == seq!['.', '.'] {
                    assert(seg@.len() == 2);
                }
            }
        }
        Some(String::from_str(seg))
    }
}

/// Derive the directory part of `path` under the library's naming scheme,
/// or report that it has none.
pub fn parent_dir(path: &str) -> (r: Option<String>)
    ensures
        match r {
            Some(dir) => parent_of(path@) == Some(dir@),
            None => parent_of(path@) is None,
        },
{
    let t = trim_end_seps(path);
    let n = t.unicode_len();
    if n == 0 {
        return None;
    }
    match find_last_sep(t) {
        Some(k) => {
            proof {
                lemma_tail_sep_at(t@, k as int);
            }
            Some(String::from_str(t.substring_char(0, k)))
        },
        None => {
            proof {
                lemma_tail_no_sep(t@);
            }
            None
        },
    }
}

/// The path of the desktop shortcut for `app_name`: `<app_name>.lnk` under
/// the desktop directory.
pub open spec fn desktop_shortcut_path_spec(desktop: Seq<char>, sep: Seq<char>, app_name: Seq<
    char,
>) -> Seq<char> {
    desktop + sep + app_name + ".lnk"@
}

/// The vendor-scoped start-menu folder under the roaming application-data
/// directory.
pub open spec fn start_menu_dir_spec(appdata: Seq<char>, sep: Seq<char>) -> Seq<char> {
    appdata + sep + "Microsoft"@ + sep + "Windows"@ + sep + "Start Menu"@ + sep + "Programs"@ + sep
        + "Enderfall"@
}

/// The path of the start-menu shortcut for `app_name`.
pub open spec fn start_menu_shortcut_path_spec(appdata: Seq<char>, sep: Seq<char>, app_name: Seq<
    char,
>) -> Seq<char> {
    start_menu_dir_spec(appdata, sep) + sep + app_name + ".lnk"@
}

/// The per-user preferences file: `EnderFall/Hub/preferences.json` under
/// the local application-data directory.
pub open spec fn preferences_path_spec(base: Seq<char>, sep: Seq<char>) -> Seq<char> {
    base + sep + "EnderFall"@ + sep + "Hub"@ + sep + "preferences.json"@
}

/// Join one path component onto a directory with the given separator.
pub fn join_path(dir: &str, sep: &str, name: &str) -> (r: String)
    ensures
        r@ == dir@ + sep@ + name@,
{
    let mut r = String::from_str(dir);
    r.append(sep);
    r.append(name);
    r
}

/// Build the desktop shortcut path for `app_name`.
pub fn desktop_shortcut_path(desktop: &str, sep: &str, app_name: &str) -> (r: String)
    ensures
        r@ == desktop_shortcut_path_spec(desktop@, sep@, app_name@),
{
    let mut r = String::from_str(desktop);
    r.append(sep);
    r.append(app_name);
    r.append(".lnk");
    proof {
        assert(r@ =~= desktop_shortcut_path_spec(desktop@, sep@, app_name@));
    }
    r
}

/// Build the vendor-scoped start-menu folder path.
pub fn start_menu_dir(appdata: &str, sep: &str) -> (r: String)
    ensures
        r@ == start_menu_dir_spec(appdata@, sep@),
{
    let mut r = String::from_str(appdata);
    r.append(sep);
    r.append("Microsoft");
    r.append(sep);
    r.append("Windows");
    r.append(sep);
    r.append("Start Menu");
    r.append(sep);
    r.append("Programs");
    r.append(sep);
    r.append("Enderfall");
    proof {
        assert(r@ =~= start_menu_dir_spec(appdata@, sep@));
    }
    r
}

/// Build the start-menu shortcut path for `app_name`.
pub fn start_menu_shortcut_path(appdata: &str, sep: &str, app_name: &str) -> (r: String)
    ensures
        r@ == start_menu_shortcut_path_spec(appdata@, sep@, app_name@),
{
    let mut r = start_menu_dir(appdata, sep);
    r.append(sep);
    r.append(app_name);
    r.append(".lnk");
    proof {
        assert(r@ =~= start_menu_shortcut_path_spec(appdata@, sep@, app_name@));
    }
    r
}

/// Build the per-user preferences file path under `base`.
pub fn preferences_path(base: &str, sep: &str) -> (r: String)
    ensures
        r@ == preferences_path_spec(base@, sep@),
{
    let mut r = String::from_str(base);
    r.append(sep);
    r.append("EnderFall");
    r.append(sep);
    r.append("Hub");
    r.append(sep);
    r.append("preferences.json");
    proof {
        assert(r@ =~= preferences_path_spec(base@, sep@));
    }
    r
}

} // verus!
