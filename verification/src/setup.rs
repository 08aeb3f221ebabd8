//! The first-run setup: where the add-ons live, and the decisions taken on
//! what the editor's and the shell's tools report.
use vstd::prelude::*;
use crate::text::{
    chars_of, concat, has_suffix, split_chars, split_on, char_seqs, str_eq, trim, trim_chars,
    string_from_chars,
};

verus! {

broadcast use vstd::std_specs::vec::group_vec_axioms;

/// What the setup wizard shows about the add-ons.
pub struct AddonStatus {
    pub vscode_available: bool,
    pub vscode_installed: bool,
    pub claude_available: bool,
    pub skill_installed: bool,
}

/// `PathBuf::join(name)` for a relative `name`: a separator is added unless
/// `dir` is empty or already ends with one (`/`, and on Windows also `\`,
/// which is the separator added there).
pub open spec fn path_join(dir: Seq<char>, name: Seq<char>, windows: bool) -> Seq<char> {
    if dir.len() == 0 || dir.last() == '/' || (windows && dir.last() == '\\') {
        dir + name
    } else if windows {
        dir + seq!['\\'] + name
    } else {
        dir + seq!['/'] + name
    }
}

/// Joins a relative `name` to `dir` (see `path_join`).
pub fn join_path(dir: &str, name: &str, windows: bool) -> (r: String)
    ensures
        r@ == path_join(dir@, name@, windows),
{
    let cs = chars_of(dir);
    let n = cs.len();
    if n == 0 || cs[n - 1] == '/' || (windows && cs[n - 1] == '\\') {
        concat(dir, name)
    } else if windows {
        let with_sep = concat(dir, "\\");
        proof {
            reveal_strlit("\\");
        }
        assert("\\"@ =~= seq!['\\']);
        concat(with_sep.as_str(), name)
    } else {
        let with_sep = concat(dir, "/");
        proof {
            reveal_strlit("/");
        }
        assert("/"@ =~= seq!['/']);
        concat(with_sep.as_str(), name)
    }
}

/// `Path::new(path).exists()`.
/// Trusted, and nothing is stated of the result: it depends on what is on
/// disk when the call is made.
#[verifier::external_body]
pub(crate) fn path_exists(path: &str) -> bool {
    std::path::Path::new(path).exists()
}

/// Where the app's skill is installed under the home directory, in the
/// CLI's folder `cli_dir` (a name such as the dot-folder the CLI keeps its
/// settings in).
pub open spec fn skill_md_path(home: Seq<char>, cli_dir: Seq<char>, windows: bool) -> Seq<char> {
    path_join(path_join(path_join(path_join(home, cli_dir, windows), "skills"@, windows), "uni"@, windows), "SKILL.md"@, windows)
}

/// Where the marker of a finished setup lives under the home directory.
pub open spec fn setup_done_path(home: Seq<char>, windows: bool) -> Seq<char> {
    path_join(path_join(home, ".tsunu-alive"@, windows), "setup-done.json"@, windows)
}

/// The path of the installed skill's `SKILL.md`.
pub fn skill_md_file(home: &str, cli_dir: &str, windows: bool) -> (r: String)
    ensures
        r@ == skill_md_path(home@, cli_dir@, windows),
{
    let a = join_path(home, cli_dir, windows);
    let b = join_path(a.as_str(), "skills", windows);
    let c = join_path(b.as_str(), "uni", windows);
    join_path(c.as_str(), "SKILL.md", windows)
}

/// The path of the setup marker.
pub fn setup_done_file(home: &str, windows: bool) -> (r: String)
    ensures
        r@ == setup_done_path(home@, windows),
{
    let a = join_path(home, ".tsunu-alive", windows);
    join_path(a.as_str(), "setup-done.json", windows)
}

/// Whether the app's skill is installed: its `SKILL.md` exists under the
/// home directory. Without a home directory it is not.
pub fn check_skill_installed(home: Option<&str>, cli_dir: &str, windows: bool) -> (r: bool)
    ensures
        home is None ==> !r,
{
    match home {
        Some(h) => {
            let p = skill_md_file(h, cli_dir, windows);
            path_exists(p.as_str())
        },
        None => false,
    }
}

/// Whether the setup wizard has run: its marker exists under the home
/// directory. Without a home directory the wizard is skipped.
pub fn check_setup_done(home: Option<&str>, windows: bool) -> (r: bool)
    ensures
        home is None ==> r,
{
    match home {
        Some(h) => {
            let p = setup_done_file(h, windows);
            path_exists(p.as_str())
        },
        None => true,
    }
}

/// The VS Code command line `where code` reports: the first line (trimmed)
/// that ends with `.cmd`, else the first line when it is not blank.
pub open spec fn vscode_cli_from_where(lines: Seq<Seq<char>>) -> Option<Seq<char>> {
    if exists|i: int| 0 <= i < lines.len() && has_suffix(trim(#[trigger] lines[i]), ".cmd"@) {
        let i = choose|i: int|
            0 <= i < lines.len() && has_suffix(trim(#[trigger] lines[i]), ".cmd"@) && forall|k: int|
                0 <= k < i ==> !has_suffix(trim(#[trigger] lines[k]), ".cmd"@);
        Some(trim(lines[i]))
    } else if lines.len() > 0 && trim(lines[0]).len() > 0 {
        Some(trim(lines[0]))
    } else {
        None
    }
}

proof fn lemma_first_cmd_line(lines: Seq<Seq<char>>, i: int)
    requires
        0 <= i < lines.len(),
        has_suffix(trim(lines[i]), ".cmd"@),
        forall|k: int| 0 <= k < i ==> !has_suffix(trim(#[trigger] lines[k]), ".cmd"@),
    ensures
        vscode_cli_from_where(lines) == Some(trim(lines[i])),
{
    let j = choose|j: int|
        0 <= j < lines.len() && has_suffix(trim(#[trigger] lines[j]), ".cmd"@) && forall|k: int|
            0 <= k < j ==> !has_suffix(trim(#[trigger] lines[k]), ".cmd"@);
    assert(0 <= i < lines.len() && has_suffix(trim(lines[i]), ".cmd"@) && forall|k: int|
        0 <= k < i ==> !has_suffix(trim(#[trigger] lines[k]), ".cmd"@));
    if j < i {
        assert(!has_suffix(trim(lines[j]), ".cmd"@));
    }
    if i < j {
        assert(!has_suffix(trim(lines[i]), ".cmd"@));
    }
}

fn chars_have_suffix(s: &Vec<char>, p: &Vec<char>) -> (r: bool)
    ensures
        r == has_suffix(s@, p@),
{
    if p.len() > s.len() {
        return false;
    }
    let n = s.len();
    let off = n - p.len();
    let mut k: usize = 0;
    while k < p.len()
        invariant
            0 <= k <= p@.len(),
            n == s@.len(),
            off + p@.len() == s@.len(),
            forall|q: int| 0 <= q < k ==> s@[off + q] == p@[q],
        decreases p.len() - k,
    {
        assert(off + k < s@.len());
        if s[off + k] != p[k] {
            assert(s@.subrange(off as int, s@.len() as int)[k as int] != p@[k as int]);
            return false;
        }
        k = k + 1;
    }
    assert(s@.subrange(off as int, s@.len() as int) =~= p@);
    true
}

/// Picks the VS Code command from the output of `where code`.
pub fn pick_vscode_cli(where_output: &str) -> (r: Option<String>)
    ensures
        match r {
            Some(x) => vscode_cli_from_where(split_on(where_output@, '\n')) == Some(x@),
            None => vscode_cli_from_where(split_on(where_output@, '\n')) is None,
        },
{
    let cs = chars_of(where_output);
    let lines = split_chars(&cs, '\n');
    let ghost ls = char_seqs(lines@);
    proof {
        crate::text::lemma_split_on_nonempty(where_output@, '\n');
    }
    let suffix = chars_of(".cmd");
    let mut i: usize = 0;
    while i < lines.len()
        invariant
            0 <= i <= lines@.len(),
            ls == char_seqs(lines@),
            ls == split_on(where_output@, '\n'),
            suffix@ == ".cmd"@,
            forall|k: int| 0 <= k < i ==> !has_suffix(trim(#[trigger] ls[k]), ".cmd"@),
        decreases lines.len() - i,
    {
        let t = trim_chars(&lines[i]);
        if chars_have_suffix(&t, &suffix) {
            proof {
                lemma_first_cmd_line(ls, i as int);
            }
            return Some(string_from_chars(t.as_slice()));
        }
        i = i + 1;
    }
    assert(!exists|i: int| 0 <= i < ls.len() && has_suffix(trim(#[trigger] ls[i]), ".cmd"@));
    let first = trim_chars(&lines[0]);
    if first.len() > 0 {
        Some(string_from_chars(first.as_slice()))
    } else {
        None
    }
}

/// A character folded to ASCII lowercase, as a code point.
pub open spec fn ascii_fold(c: char) -> u32 {
    if ('A' as u32) <= (c as u32) && (c as u32) <= ('Z' as u32) {
        (c as u32 + 32) as u32
    } else {
        c as u32
    }
}

/// `eq_ignore_ascii_case`.
pub open spec fn eq_ignore_ascii_case(a: Seq<char>, b: Seq<char>) -> bool {
    a.len() == b.len() && forall|i: int| 0 <= i < a.len() ==> ascii_fold(#[trigger] a[i]) == ascii_fold(b[i])
}

fn fold(c: char) -> (r: u32)
    ensures
        r == ascii_fold(c),
{
    let v = c as u32;
    if 65 <= v && v <= 90 {
        v + 32
    } else {
        v
    }
}

fn chars_eq_ignore_ascii_case(a: &Vec<char>, b: &Vec<char>) -> (r: bool)
    ensures
        r == eq_ignore_ascii_case(a@, b@),
{
    if a.len() != b.len() {
        return false;
    }
    let mut i: usize = 0;
    while i < a.len()
        invariant
            0 <= i <= a@.len(),
            a@.len() == b@.len(),
            forall|k: int| 0 <= k < i ==> ascii_fold(#[trigger] a@[k]) == ascii_fold(b@[k]),
        decreases a.len() - i,
    {
        if fold(a[i]) != fold(b[i]) {
            return false;
        }
        i = i + 1;
    }
    true
}

/// The id of the app's editor extension.
pub open spec fn extension_id() -> Seq<char> {
    "tsunu-alive.tsunu-alive-connector"@
}

/// Whether `code --list-extensions` lists the app's extension (on a line
/// of its own, ignoring surrounding blanks and ASCII case).
pub open spec fn extension_listed_model(output: Seq<char>) -> bool {
    exists|i: int|
        0 <= i < split_on(output, '\n').len() && eq_ignore_ascii_case(
            trim(#[trigger] split_on(output, '\n')[i]),
            extension_id(),
        )
}

/// Decides `extension_listed_model` on the output of `code --list-extensions`.
pub fn extension_listed(output: &str) -> (r: bool)
    ensures
        r == extension_listed_model(output@),
{
    let cs = chars_of(output);
    let lines = split_chars(&cs, '\n');
    let ghost ls = char_seqs(lines@);
    let id = chars_of("tsunu-alive.tsunu-alive-connector");
    let mut i: usize = 0;
    while i < lines.len()
        invariant
            0 <= i <= lines@.len(),
            ls == char_seqs(lines@),
            ls == split_on(output@, '\n'),
            id@ == extension_id(),
            forall|k: int| 0 <= k < i ==> !eq_ignore_ascii_case(trim(#[trigger] ls[k]), extension_id()),
        decreases lines.len() - i,
    {
        let t = trim_chars(&lines[i]);
        if chars_eq_ignore_ascii_case(&t, &id) {
            assert(eq_ignore_ascii_case(trim(ls[i as int]), extension_id()));
            return true;
        }
        i = i + 1;
    }
    false
}

} // verus!
