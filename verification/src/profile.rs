//! Profiles: named token files `~/.linear_api_token_{name}`; the profile
//! `default` is the file `~/.linear_api_token`.

use vstd::prelude::*;
use crate::seqs::{first_match, lemma_first_match, lemma_first_match_none, lemma_first_match_unique};
use crate::text::{
    join, join_strings, lemma_text_lt_asymmetric, lemma_text_lt_total, lemma_text_lt_transitive,
    text_equal, text_less, text_lt, views,
};

verus! {

/// The file name of a profile's token: `.linear_api_token` for `default`, otherwise
/// `.linear_api_token_{name}`.
pub open spec fn token_file(name: Seq<char>) -> Seq<char> {
    if name == "default"@ {
        ".linear_api_token"@
    } else {
        ".linear_api_token_"@ + name
    }
}

/// The user-facing path of a profile's token file.
pub open spec fn display_path_of(name: Seq<char>) -> Seq<char> {
    if name == "default"@ {
        "~/.linear_api_token"@
    } else {
        "~/.linear_api_token_"@ + name
    }
}

/// The file name, in the home directory, of a profile's token.
pub fn token_file_name(name: &str) -> (r: String)
    ensures
        r@ == token_file(name@),
{
    if text_equal(name, "default") {
        String::from_str(".linear_api_token")
    } else {
        let mut s = String::from_str(".linear_api_token_");
        s.append(name);
        s
    }
}

/// A filesystem path (`std::path::Path`), carried through opaquely.
#[verifier::external_type_specification]
#[verifier::external_body]
pub struct ExPath(std::path::Path);

/// An owned filesystem path (`std::path::PathBuf`), carried through opaquely.
#[verifier::external_type_specification]
#[verifier::external_body]
pub struct ExPathBuf(std::path::PathBuf);

/// The path that `Path::join` gives for a directory and a file name. It depends on
/// its arguments alone; paths have no text view here, so it is a name.
pub uninterp spec fn joined_path(dir: &std::path::Path, file: Seq<char>) -> std::path::PathBuf;

/// Joins a file name onto a directory with `Path::join`; the result is
/// `joined_path` of the directory and the file name.
#[verifier::external_body]
fn join_path(dir: &std::path::Path, file: &str) -> (r: std::path::PathBuf)
    ensures
        r == joined_path(dir, file@),
{
    dir.join(file)
}

/// The token file path of a profile: its token file name (`token_file`, that is
/// `.linear_api_token` for `default`, `.linear_api_token_{name}` otherwise) joined
/// onto `home`.
pub fn token_path(home: &std::path::Path, name: &str) -> (r: std::path::PathBuf)
    ensures
        r == joined_path(home, token_file(name@)),
{
    let file = token_file_name(name);
    join_path(home, file.as_str())
}

/// The path of a profile's token file as it is shown to the user (with `~`).
pub fn display_path(name: &str) -> (r: String)
    ensures
        r@ == display_path_of(name@),
{
    if text_equal(name, "default") {
        String::from_str("~/.linear_api_token")
    } else {
        let mut s = String::from_str("~/.linear_api_token_");
        s.append(name);
        s
    }
}

/// A text in double quotes.
pub open spec fn quoted(s: Seq<char>) -> Seq<char> {
    "\""@ + s + "\""@
}

/// The profiles offered when one is missing: `"default"` when its file exists, then
/// the other profiles, each in quotes.
pub open spec fn offered_profiles(default_exists: bool, profiles: Seq<Seq<char>>) -> Seq<Seq<char>> {
    let rest = profiles.map_values(|p: Seq<char>| quoted(p));
    if default_exists {
        seq![quoted("default"@)] + rest
    } else {
        rest
    }
}

/// The message for a profile whose token file does not exist.
pub open spec fn not_found_message(profile: Seq<char>, default_exists: bool, profiles: Seq<Seq<char>>) -> Seq<char> {
    let offered = offered_profiles(default_exists, profiles);
    let listing = if offered.len() == 0 {
        " No profiles found."@
    } else {
        " Available profiles: "@ + join(offered, ", "@) + "."@
    };
    "Profile \""@ + profile + "\" not found."@ + listing + "\nCreate it with:\n  echo \"lin_api_...\" > "@
        + display_path_of(profile)
}

/// A text in double quotes.
fn quote(s: &str) -> (r: String)
    ensures
        r@ == quoted(s@),
{
    let mut q = String::from_str("\"");
    q.append(s);
    q.append("\"");
    q
}

/// The error message for a missing profile, given whether the default token file
/// exists and which other profiles were found (see `discover_profiles`).
pub fn not_found_error(profile: &str, default_exists: bool, profiles: &Vec<String>) -> (r: String)
    ensures
        r@ == not_found_message(profile@, default_exists, views(profiles@)),
{
    let mut offered: Vec<String> = Vec::new();
    if default_exists {
        offered.push(quote("default"));
    }
    let ghost start = views(offered@);
    let n = profiles.len();
    let mut i: usize = 0;
    while i < n
        invariant
            n == profiles@.len(),
            i <= n,
            start == (if default_exists { seq![quoted("default"@)] } else { Seq::<Seq<char>>::empty() }),
            views(offered@) =~= start + views(profiles@).take(i as int).map_values(|p: Seq<char>| quoted(p)),
        decreases n - i,
    {
        let ghost before = views(offered@);
        let q = quote(profiles[i].as_str());
        offered.push(q);
        assert(views(offered@) =~= before.push(q@));
        assert(views(profiles@).take(i + 1).map_values(|p: Seq<char>| quoted(p)) =~= views(profiles@).take(
            i as int,
        ).map_values(|p: Seq<char>| quoted(p)).push(quoted(profiles@[i as int]@)));
        i = i + 1;
    }
    assert(views(profiles@).take(n as int) =~= views(profiles@));
    assert(views(offered@) =~= offered_profiles(default_exists, views(profiles@)));
    let mut msg = String::from_str("Profile \"");
    msg.append(profile);
    msg.append("\" not found.");
    if offered.len() == 0 {
        msg.append(" No profiles found.");
    } else {
        msg.append(" Available profiles: ");
        let list = join_strings(&offered, ", ");
        msg.append(list.as_str());
        msg.append(".");
    }
    msg.append("\nCreate it with:\n  echo \"lin_api_...\" > ");
    let dp = display_path(profile);
    msg.append(dp.as_str());
    msg
}

/// The prefix of the token files of named profiles.
pub open spec fn profile_prefix() -> Seq<char> {
    ".linear_api_token_"@
}

/// The profile that a file name in the home directory stands for: the part after
/// `.linear_api_token_`, unless it is empty or `test`.
pub open spec fn profile_of_file(f: Seq<char>) -> Option<Seq<char>> {
    let k = profile_prefix().len();
    if f.len() >= k && f.take(k as int) == profile_prefix() {
        let s = f.skip(k as int);
        if s.len() == 0 || s == "test"@ {
            None
        } else {
            Some(s)
        }
    } else {
        None
    }
}

/// The profiles that the file names stand for, in the order of the files.
pub open spec fn profiles_of_files(fs: Seq<Seq<char>>) -> Seq<Seq<char>>
    decreases fs.len(),
{
    if fs.len() == 0 {
        Seq::empty()
    } else {
        let rest = profiles_of_files(fs.drop_last());
        match profile_of_file(fs.last()) {
            Some(p) => rest.push(p),
            None => rest,
        }
    }
}

/// The profile that one file name stands for.
pub fn profile_from_file_name(f: &str) -> (r: Option<String>)
    ensures
        match profile_of_file(f@) {
            Some(p) => r matches Some(s) && s@ == p,
            None => r is None,
        },
{
    let prefix = ".linear_api_token_";
    proof {
        reveal_strlit(".linear_api_token_");
    }
    let k = prefix.unicode_len();
    let n = f.unicode_len();
    if n < k {
        return None;
    }
    let head = f.substring_char(0, k);
    if !text_equal(head, prefix) {
        assert(head@ == f@.take(k as int));
        return None;
    }
    let tail = f.substring_char(k, n);
    assert(tail@ =~= f@.skip(k as int));
    if tail.unicode_len() == 0 || text_equal(tail, "test") {
        None
    } else {
        Some(String::from_str(tail))
    }
}

/// Texts in the order of `str`.
pub open spec fn sorted_texts(t: Seq<Seq<char>>) -> bool {
    forall|i: int, j: int| 0 <= i < j < t.len() ==> !text_lt(#[trigger] t[j], #[trigger] t[i])
}

/// A text that sorts strictly after `k`.
pub open spec fn text_after(k: Seq<char>) -> spec_fn(Seq<char>) -> bool {
    |y: Seq<char>| text_lt(k, y)
}

/// `t` with `x` put before the first text that sorts after it.
pub open spec fn insert_text(x: Seq<char>, t: Seq<Seq<char>>) -> Seq<Seq<char>> {
    match first_match(t, text_after(x)) {
        Some(i) => t.insert(i, x),
        None => t.push(x),
    }
}

/// `s` sorted in the order of `str`.
pub open spec fn sort_texts(s: Seq<Seq<char>>) -> Seq<Seq<char>>
    decreases s.len(),
{
    if s.len() == 0 {
        s
    } else {
        insert_text(s.last(), sort_texts(s.drop_last()))
    }
}

/// Sorts strings in the order of `str` (as `slice::sort` does for `String`).
pub fn sort_strings(v: Vec<String>) -> (r: Vec<String>)
    ensures
        views(r@) == sort_texts(views(v@)),
{
    let ghost s = views(v@);
    let mut out: Vec<String> = Vec::new();
    let mut src = v;
    let n = src.len();
    let mut i: usize = 0;
    assert(s.take(0) =~= Seq::<Seq<char>>::empty());
    assert(views(out@) =~= Seq::<Seq<char>>::empty());
    while i < n
        invariant
            n == src@.len(),
            s == views(src@),
            i <= n,
            views(out@) == sort_texts(s.take(i as int)),
        decreases n - i,
    {
        let x = src[i].clone();
        let ghost t = views(out@);
        let ghost p = text_after(x@);
        let mut j: usize = 0;
        while j < out.len() && !text_less(x.as_str(), out[j].as_str())
            invariant
                t == views(out@),
                p == text_after(x@),
                j <= out@.len(),
                forall|k: int| 0 <= k < j ==> !(#[trigger] p(t[k])),
            decreases out@.len() - j,
        {
            j = j + 1;
        }
        proof {
            if j < t.len() {
                lemma_first_match_unique(t, p, j as int);
            } else {
                lemma_first_match_none(t, p);
            }
            assert(s.take(i + 1).drop_last() =~= s.take(i as int));
            assert(s.take(i + 1).last() == x@);
        }
        let ghost xv = x@;
        out.insert(j, x);
        assert(views(out@) =~= t.insert(j as int, xv));
        proof {
            if j == t.len() {
                assert(t.insert(j as int, xv) =~= t.push(xv));
            }
        }
        i = i + 1;
    }
    assert(s.take(n as int) =~= s);
    out
}

/// The profiles found among the file names of the home directory, sorted; the
/// `test` profile and an empty name are left out.
pub fn discover_profiles(file_names: &Vec<String>) -> (r: Vec<String>)
    ensures
        views(r@) == sort_texts(profiles_of_files(views(file_names@))),
{
    let ghost fs = views(file_names@);
    let mut found: Vec<String> = Vec::new();
    let n = file_names.len();
    let mut i: usize = 0;
    assert(fs.take(0) =~= Seq::<Seq<char>>::empty());
    assert(views(found@) =~= Seq::<Seq<char>>::empty());
    while i < n
        invariant
            n == file_names@.len(),
            fs == views(file_names@),
            i <= n,
            views(found@) == profiles_of_files(fs.take(i as int)),
        decreases n - i,
    {
        assert(fs.take(i + 1).drop_last() =~= fs.take(i as int));
        assert(fs.take(i + 1).last() == file_names@[i as int]@);
        match profile_from_file_name(file_names[i].as_str()) {
            Some(p) => {
                let ghost before = found@;
                found.push(p);
                assert(views(found@) =~= views(before).push(p@));
            },
            None => {},
        }
        i = i + 1;
    }
    assert(fs.take(n as int) =~= fs);
    sort_strings(found)
}

/// Law: sorting keeps exactly the profiles that were found (as a multiset).
pub proof fn law_sort_texts_permutes(s: Seq<Seq<char>>)
    ensures
        sort_texts(s).to_multiset() == s.to_multiset(),
    decreases s.len(),
{
    broadcast use vstd::seq_lib::group_to_multiset_ensures;

    if s.len() > 0 {
        law_sort_texts_permutes(s.drop_last());
        let t = sort_texts(s.drop_last());
        let x = s.last();
        match first_match(t, text_after(x)) {
            Some(i) => {
                lemma_first_match(t, text_after(x));
                vstd::seq_lib::to_multiset_insert(t, i, x);
            },
            None => {},
        }
        assert(s =~= s.drop_last().push(x));
    }
}

/// Law: discovered profiles come out sorted.
pub proof fn law_sort_texts_is_sorted(s: Seq<Seq<char>>)
    ensures
        sorted_texts(sort_texts(s)),
    decreases s.len(),
{
    if s.len() > 0 {
        let x = s.last();
        let t = sort_texts(s.drop_last());
        law_sort_texts_is_sorted(s.drop_last());
        let p = text_after(x);
        lemma_first_match(t, p);
        let pos = match first_match(t, p) {
            Some(i) => i,
            None => t.len() as int,
        };
        let u = insert_text(x, t);
        assert(u =~= t.insert(pos, x));
        assert forall|j: int| pos <= j < t.len() implies text_lt(x, #[trigger] t[j]) by {
            if j > pos {
                assert(!text_lt(t[j], t[pos]));
                if !text_lt(x, t[j]) && x != t[j] {
                    lemma_text_lt_total(x, t[j]);
                    lemma_text_lt_transitive(t[j], x, t[pos]);
                }
                if x == t[j] {
                    assert(text_lt(x, t[pos]));
                }
            }
        }
        assert forall|i: int, j: int| 0 <= i < j < u.len() implies !text_lt(#[trigger] u[j], #[trigger] u[i]) by {
            if j < pos {
                assert(u[i] == t[i] && u[j] == t[j]);
            } else if j == pos {
                assert(u[i] == t[i] && u[j] == x);
            } else if i < pos {
                assert(u[i] == t[i] && u[j] == t[j - 1]);
                assert(text_lt(x, t[j - 1]));
                assert(!text_lt(x, t[i]));
                if text_lt(t[j - 1], t[i]) {
                    assert(!text_lt(t[j - 1], t[i]));
                }
            } else if i == pos {
                assert(u[i] == x && u[j] == t[j - 1]);
                lemma_text_lt_asymmetric(x, t[j - 1]);
            } else {
                assert(u[i] == t[i - 1] && u[j] == t[j - 1]);
            }
        }
    }
}


/// The profile in use: the one named, or `default`.
pub open spec fn active_profile_of(p: Option<Seq<char>>) -> Seq<char> {
    match p {
        Some(x) => x,
        None => "default"@,
    }
}

/// The profile in use: the one named with `--profile`, or `default`.
pub fn active_profile(p: Option<&str>) -> (r: String)
    ensures
        r@ == active_profile_of(match p {
            Some(x) => Some(x@),
            None => None,
        }),
{
    match p {
        Some(x) => String::from_str(x),
        None => String::from_str("default"),
    }
}

/// The other discovered profiles, in quotes, leaving out the active one.
pub open spec fn quoted_others(active: Seq<char>, ps: Seq<Seq<char>>) -> Seq<Seq<char>>
    decreases ps.len(),
{
    if ps.len() == 0 {
        Seq::empty()
    } else {
        let rest = quoted_others(active, ps.drop_last());
        if ps.last() != active {
            rest.push(quoted(ps.last()))
        } else {
            rest
        }
    }
}

/// The profiles offered besides the active one: `"default"` when its file exists and
/// it is not active, then the other discovered profiles.
pub open spec fn other_profiles(active: Seq<char>, default_exists: bool, ps: Seq<Seq<char>>) -> Seq<Seq<char>> {
    (if default_exists && active != "default"@ { seq![quoted("default"@)] } else { Seq::empty() })
        + quoted_others(active, ps)
}

/// The note after the token file in `usage`: whether it was found.
pub open spec fn token_file_note(active: Seq<char>, found: bool) -> Seq<char> {
    if found {
        " (found, active profile: \""@ + active + "\")"@
    } else {
        " (not found)"@
    }
}

/// The lines in `usage` that offer the other profiles, if there are any.
pub open spec fn other_profiles_note(others: Seq<Seq<char>>) -> Seq<char> {
    if others.len() == 0 {
        Seq::empty()
    } else {
        "\n    other available profiles: "@ + join(others, ", "@) + ".\n    switch with --profile <name>"@
    }
}

/// The two notes about token files that `usage` prints: whether the active
/// profile's file was found, and which other profiles exist.
pub fn usage_token_notes(active: &str, found: bool, default_exists: bool, profiles: &Vec<String>) -> (r: (
    String,
    String,
))
    ensures
        r.0@ == token_file_note(active@, found),
        r.1@ == other_profiles_note(other_profiles(active@, default_exists, views(profiles@))),
{
    let mut others: Vec<String> = Vec::new();
    if default_exists && !text_equal(active, "default") {
        others.push(quote("default"));
    }
    let ghost start = views(others@);
    assert(start =~= (if default_exists && active@ != "default"@ { seq![quoted("default"@)] } else { Seq::<Seq<char>>::empty() }));
    let ghost ps = views(profiles@);
    let n = profiles.len();
    let mut i: usize = 0;
    assert(ps.take(0) =~= Seq::<Seq<char>>::empty());
    while i < n
        invariant
            n == profiles@.len(),
            ps == views(profiles@),
            i <= n,
            views(others@) =~= start + quoted_others(active@, ps.take(i as int)),
        decreases n - i,
    {
        assert(ps.take(i + 1).drop_last() =~= ps.take(i as int));
        assert(ps.take(i + 1).last() == profiles@[i as int]@);
        if !text_equal(profiles[i].as_str(), active) {
            let ghost before = views(others@);
            let q = quote(profiles[i].as_str());
            others.push(q);
            assert(views(others@) =~= before.push(q@));
        }
        i = i + 1;
    }
    assert(ps.take(n as int) =~= ps);
    let note = if found {
        let mut h = String::from_str(" (found, active profile: \"");
        h.append(active);
        h.append("\")");
        h
    } else {
        String::from_str(" (not found)")
    };
    let extra = if others.len() == 0 {
        String::new()
    } else {
        let mut e = String::from_str("\n    other available profiles: ");
        let list = join_strings(&others, ", ");
        e.append(list.as_str());
        e.append(".\n    switch with --profile <name>");
        e
    };
    (note, extra)
}

} // verus!
