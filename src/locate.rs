//! Choosing the local repository root: build-tool home reported by the tool
//! itself, then the tool-home environment variables, then homes inferred from
//! the search path, then the user's own settings, then the default location.
use vstd::prelude::*;
use crate::settings::{local_repository_of, repository_in_settings};
use crate::text::{chars_of, contains, contains_chars, has_prefix, starts_with, trim_of, trimmed};

verus! {

/// The lines of `s`.
pub uninterp spec fn lines_of(s: Seq<char>) -> Seq<Seq<char>>;

/// The pieces of `s` between `;` separators.
pub uninterp spec fn segments_of(s: Seq<char>) -> Seq<Seq<char>>;

/// `s` in lower case.
pub uninterp spec fn lower_of(s: Seq<char>) -> Seq<char>;

/// The parent directory of the path `p`, if it has one.
pub uninterp spec fn parent_of(p: Seq<char>) -> Option<Seq<char>>;

/// The path `name` joined onto the path `base`.
pub uninterp spec fn joined(base: Seq<char>, name: Seq<char>) -> Seq<char>;

/// Relies on `str::lines`: the lines of `s`, a function of its characters.
#[verifier::external_body]
fn text_lines(s: &str) -> (r: Vec<String>)
    ensures
        r.deep_view() == lines_of(s@),
{
    s.lines().map(str::to_string).collect()
}

/// Relies on `str::split` with the separator `;`.
#[verifier::external_body]
fn path_segments(s: &str) -> (r: Vec<String>)
    ensures
        r.deep_view() == segments_of(s@),
{
    s.split(';').map(str::to_string).collect()
}

/// Relies on `str::to_lowercase`: the result depends on the characters alone.
#[verifier::external_body]
fn lowercase(s: &str) -> (r: String)
    ensures
        r@ == lower_of(s@),
{
    s.to_lowercase()
}

/// Relies on `Path::parent`, read back through `to_string_lossy`.
#[verifier::external_body]
fn parent_dir(p: &str) -> (r: Option<String>)
    ensures
        r.deep_view() == parent_of(p@),
{
    std::path::Path::new(p).parent().map(|d| d.to_string_lossy().to_string())
}

/// Relies on `Path::join`, read back through `to_string_lossy`.
#[verifier::external_body]
pub(crate) fn join_path(base: &str, name: &str) -> (r: String)
    ensures
        r@ == joined(base@, name@),
{
    std::path::Path::new(base).join(name).to_string_lossy().to_string()
}

/// The line of the tool's version report that names its home directory.
pub open spec fn home_marker() -> Seq<char> {
    "Maven home:"@
}

/// The home directory that one line of the version report names.
pub open spec fn home_in_line(line: Seq<char>) -> Option<Seq<char>> {
    if starts_with(line, home_marker()) {
        Some(trim_of(line.subrange(home_marker().len() as int, line.len() as int)))
    } else {
        None
    }
}

/// The home directory named by the first line of `lines` that names one.
pub open spec fn first_home(lines: Seq<Seq<char>>) -> Option<Seq<char>>
    decreases lines.len(),
{
    if lines.len() == 0 {
        None
    } else if home_in_line(lines[0]) is Some {
        home_in_line(lines[0])
    } else {
        first_home(lines.drop_first())
    }
}

/// The home directory that the version report `out` names.
pub open spec fn home_in_report(out: Seq<char>) -> Option<Seq<char>> {
    first_home(lines_of(out))
}

/// The home directory named by the first of `lines` that starts with the home
/// marker, trimmed.
pub fn home_in_lines(lines: &Vec<String>) -> (r: Option<String>)
    ensures
        r.deep_view() == first_home(lines.deep_view()),
{
    let marker = chars_of("Maven home:");
    let ghost all = lines.deep_view();
    let mut i: usize = 0;
    assert(all.subrange(0, all.len() as int) =~= all);
    while i < lines.len()
        invariant
            i <= lines.len(),
            all == lines.deep_view(),
            all.len() == lines.len(),
            marker@ == home_marker(),
            first_home(all) == first_home(all.subrange(i as int, all.len() as int)),
        decreases lines.len() - i,
    {
        let line = lines[i].as_str();
        let ghost rest = all.subrange(i as int, all.len() as int);
        assert(rest[0] == all[i as int]);
        assert(rest.drop_first() =~= all.subrange(i + 1, all.len() as int));
        let chars = chars_of(line);
        if has_prefix(&chars, &marker) {
            let tail = line.substring_char(marker.len(), chars.len());
            return Some(trimmed(tail));
        }
        i = i + 1;
    }
    None
}

/// The home directory that the tool's version report `out` names, if any.
pub fn maven_home_from_version_output(out: &str) -> (r: Option<String>)
    ensures
        r.deep_view() == home_in_report(out@),
{
    let lines = text_lines(out);
    home_in_lines(&lines)
}

/// A search-path entry that looks like the tool's `bin` directory.
pub open spec fn names_tool_bin(entry: Seq<char>) -> bool {
    contains(lower_of(entry), "maven"@) && contains(lower_of(entry), "bin"@)
}

/// The tool homes inferred from the search-path entries `entries`, in order:
/// the parent of each entry that looks like the tool's `bin` directory.
pub open spec fn homes_on_path(entries: Seq<Seq<char>>) -> Seq<Seq<char>>
    decreases entries.len(),
{
    if entries.len() == 0 {
        Seq::empty()
    } else {
        let rest = homes_on_path(entries.drop_last());
        let e = entries.last();
        if names_tool_bin(e) && parent_of(e) is Some {
            rest.push(parent_of(e)->0)
        } else {
            rest
        }
    }
}

/// The tool homes inferred from the `;`-separated search path `path_var`.
pub fn homes_from_path_var(path_var: &str) -> (r: Vec<String>)
    ensures
        r.deep_view() == homes_on_path(segments_of(path_var@)),
{
    let entries = path_segments(path_var);
    let maven = chars_of("maven");
    let bin = chars_of("bin");
    let ghost all = entries.deep_view();
    let mut homes: Vec<String> = Vec::new();
    let mut i: usize = 0;
    while i < entries.len()
        invariant
            i <= entries.len(),
            all == entries.deep_view(),
            all.len() == entries.len(),
            maven@ == "maven"@,
            bin@ == "bin"@,
            homes.deep_view() == homes_on_path(all.take(i as int)),
        decreases entries.len() - i,
    {
        let entry = entries[i].as_str();
        assert(all.take(i + 1).drop_last() =~= all.take(i as int));
        assert(all.take(i + 1).last() == all[i as int]);
        let lower = chars_of(lowercase(entry).as_str());
        if contains_chars(&lower, &maven) && contains_chars(&lower, &bin) {
            if let Some(parent) = parent_dir(entry) {
                homes.push(parent);
            }
        }
        i = i + 1;
    }
    assert(all.take(all.len() as int) =~= all);
    homes
}

/// Where the repository root is looked for, gathered from the environment:
/// each field is `None` where its source gave nothing.
pub struct LocatorInputs {
    /// The home directory that the tool's own version query reported.
    pub tool_home: Option<String>,
    /// The value of `MAVEN_HOME`.
    pub maven_home: Option<String>,
    /// The value of `M2_HOME`.
    pub m2_home: Option<String>,
    /// The value of `PATH`.
    pub path_var: Option<String>,
    /// The user's home directory.
    pub user_home: Option<String>,
}

/// `o` as a sequence of at most one item.
pub open spec fn opt_seq(o: Option<Seq<char>>) -> Seq<Seq<char>> {
    match o {
        Some(x) => seq![x],
        None => Seq::empty(),
    }
}

/// The tool homes to try, in order of priority.
pub open spec fn candidate_homes(inp: LocatorInputs) -> Seq<Seq<char>> {
    opt_seq(inp.tool_home.deep_view()) + opt_seq(inp.maven_home.deep_view()) + opt_seq(
        inp.m2_home.deep_view(),
    ) + match inp.path_var.deep_view() {
        Some(p) => homes_on_path(segments_of(p)),
        None => Seq::empty(),
    }
}

/// The global settings file of the tool home `home`.
pub open spec fn global_settings(home: Seq<char>) -> Seq<char> {
    joined(joined(home, "conf"@), "settings.xml"@)
}

/// The user settings file under the user's home directory `home`.
pub open spec fn user_settings(home: Seq<char>) -> Seq<char> {
    joined(joined(home, ".m2"@), "settings.xml"@)
}

/// The repository root used when no settings file configures one.
pub open spec fn default_repository(home: Seq<char>) -> Seq<char> {
    joined(joined(home, ".m2"@), "repository"@)
}

/// The settings files to read, in order of priority: the global settings of
/// each candidate home, then the user's settings.
pub open spec fn settings_paths(inp: LocatorInputs) -> Seq<Seq<char>> {
    candidate_homes(inp).map_values(|h: Seq<char>| global_settings(h)) + opt_seq(
        inp.user_home.deep_view(),
    ).map_values(|h: Seq<char>| user_settings(h))
}

/// The settings files to read for `inp`, in order of priority.
pub fn settings_files(inp: &LocatorInputs) -> (r: Vec<String>)
    ensures
        r.deep_view() == settings_paths(*inp),
{
    let mut homes: Vec<String> = Vec::new();
    if let Some(h) = &inp.tool_home {
        homes.push(h.clone());
    }
    if let Some(h) = &inp.maven_home {
        homes.push(h.clone());
    }
    if let Some(h) = &inp.m2_home {
        homes.push(h.clone());
    }
    assert(homes.deep_view() =~= opt_seq(inp.tool_home.deep_view()) + opt_seq(
        inp.maven_home.deep_view(),
    ) + opt_seq(inp.m2_home.deep_view()));
    if let Some(p) = &inp.path_var {
        let mut found = homes_from_path_var(p.as_str());
        homes.append(&mut found);
    } else {
        assert(homes.deep_view() =~= candidate_homes(*inp));
    }
    assert(homes.deep_view() =~= candidate_homes(*inp));
    let ghost hs = homes.deep_view();
    let mut r: Vec<String> = Vec::new();
    let mut i: usize = 0;
    while i < homes.len()
        invariant
            i <= homes.len(),
            hs == homes.deep_view(),
            hs.len() == homes.len(),
            r.deep_view() =~= hs.take(i as int).map_values(|h: Seq<char>| global_settings(h)),
        decreases homes.len() - i,
    {
        let conf = join_path(homes[i].as_str(), "conf");
        let file = join_path(conf.as_str(), "settings.xml");
        let ghost before = r.deep_view();
        r.push(file);
        assert(hs[i as int] == homes@[i as int]@);
        assert(r.deep_view() =~= before.push(global_settings(hs[i as int])));
        assert(hs.take(i + 1) =~= hs.take(i as int).push(hs[i as int]));
        i = i + 1;
    }
    assert(hs.take(hs.len() as int) =~= hs);
    if let Some(u) = &inp.user_home {
        let m2 = join_path(u.as_str(), ".m2");
        let file = join_path(m2.as_str(), "settings.xml");
        r.push(file);
    }
    assert(r.deep_view() =~= settings_paths(*inp));
    r
}

/// The repository configured by the first of `contents` that configures one;
/// `None` stands for a settings file that could not be read.
pub open spec fn first_configured(contents: Seq<Option<Seq<char>>>) -> Option<Seq<char>>
    decreases contents.len(),
{
    if contents.len() == 0 {
        None
    } else if contents[0] is Some && repository_in_settings(contents[0]->0) is Some {
        repository_in_settings(contents[0]->0)
    } else {
        first_configured(contents.drop_first())
    }
}

/// The repository root chosen from the contents of the settings files, read
/// in the order of `settings_paths`, and the user's home directory.
pub open spec fn resolution(contents: Seq<Option<Seq<char>>>, user_home: Option<Seq<char>>) -> Option<
    Seq<char>,
> {
    match first_configured(contents) {
        Some(p) => Some(p),
        None => match user_home {
            Some(h) => Some(default_repository(h)),
            None => None,
        },
    }
}

/// The message given when no repository root can be determined.
pub open spec fn no_home_message() -> Seq<char> {
    "cannot determine the user's home directory"@
}

/// The repository root: the first repository configured by `contents`, else
/// the default location under `user_home`; an error only where neither exists.
pub fn resolve_repository(contents: &Vec<Option<String>>, user_home: &Option<String>) -> (r: Result<
    String,
    String,
>)
    ensures
        match resolution(contents.deep_view(), user_home.deep_view()) {
            Some(p) => r matches Ok(s) && s@ == p,
            None => r matches Err(e) && e@ == no_home_message(),
        },
{
    let ghost all = contents.deep_view();
    let mut i: usize = 0;
    assert(all.subrange(0, all.len() as int) =~= all);
    while i < contents.len()
        invariant
            i <= contents.len(),
            all == contents.deep_view(),
            all.len() == contents.len(),
            first_configured(all) == first_configured(all.subrange(i as int, all.len() as int)),
        decreases contents.len() - i,
    {
        let ghost rest = all.subrange(i as int, all.len() as int);
        assert(rest[0] == all[i as int]);
        assert(rest.drop_first() =~= all.subrange(i + 1, all.len() as int));
        if let Some(c) = &contents[i] {
            if let Some(p) = local_repository_of(c.as_str()) {
                return Ok(p);
            }
        }
        i = i + 1;
    }
    match user_home {
        Some(h) => {
            let m2 = join_path(h.as_str(), ".m2");
            Ok(join_path(m2.as_str(), "repository"))
        },
        None => Err("cannot determine the user's home directory".to_owned()),
    }
}

/// A repository configured in the global settings of the home that the tool
/// itself reports wins over every later source, such as the environment.
pub proof fn lemma_tool_query_wins(
    inp: LocatorInputs,
    contents: Seq<Option<Seq<char>>>,
    user_home: Option<Seq<char>>,
)
    requires
        inp.tool_home is Some,
        contents.len() > 0,
        contents[0] is Some,
        repository_in_settings(contents[0]->0) is Some,
    ensures
        settings_paths(inp)[0] == global_settings(inp.tool_home->0@),
        resolution(contents, user_home) == repository_in_settings(contents[0]->0),
{
    assert(candidate_homes(inp)[0] == inp.tool_home->0@);
}

} // verus!
