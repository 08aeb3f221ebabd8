use vstd::prelude::*;
use crate::text::{lemma_split_on_nonempty, 
    char_seqs, chars_find_from, find_chars, first_occurrence, chars_have_prefix, chars_of, contains_str, has_infix, has_prefix,
    lowercase, occurs_at, skip_chars, split_chars, split_on, starts_with, string_from_chars,
    strip_char, strip_char_chars, take_chars, take_chars_exec, take_prefix, to_lowercase, trim,
    trim_chars, trim_str,
};
use crate::order::{is_stable_order, key_views, stable_order};
use crate::json::{Json, JsonValue, models, opt_as_str, opt_get};

verus! {

/// A file or folder offered by the @-mention menu.
#[derive(Debug, Clone)]
pub struct FileItem {
    pub name: String,
    /// The path relative to the working directory.
    pub path: String,
    pub is_dir: bool,
}

/// A skill offered by the slash menu.
#[derive(Debug, Clone)]
pub struct SkillItem {
    pub name: String,
    pub description: String,
    /// Where it was found: "user" or "project".
    pub source: String,
}

/// A past conversation of the project.
#[derive(Debug, Clone)]
pub struct SessionItem {
    pub session_id: String,
    /// RFC 3339 time.
    pub created_at: String,
    /// RFC 3339 time.
    pub last_modified: String,
    /// The opening user message, shortened.
    pub summary: Option<String>,
}

/// The most recent plan file.
#[derive(Debug, Clone)]
pub struct PlanFileInfo {
    pub path: String,
    /// The file name without its extension.
    pub name: String,
    /// RFC 3339 time.
    pub modified_at: String,
}

/// Text of the CLI's own bookkeeping, which the conversation view leaves out.
pub open spec fn system_message(text: Seq<char>) -> bool {
    let t = trim(text);
    has_prefix(t, "Caveat:"@) || has_prefix(t, "Unknown skill:"@) || has_prefix(
        t,
        "[Request interrupted"@,
    ) || has_prefix(t, "No response requested"@) || has_prefix(t, "<system-reminder>"@)
        || has_infix(t, "</system-reminder>"@) || has_prefix(t, "<ide_"@) || has_prefix(
        t,
        "<command-name>"@,
    )
}

/// Whether a message text is the CLI's bookkeeping rather than conversation.
pub fn is_system_message(text: &str) -> (r: bool)
    ensures
        r == system_message(text@),
{
    let trimmed = trim_str(text);
    let t = trimmed.as_str();
    starts_with(t, "Caveat:") || starts_with(t, "Unknown skill:") || starts_with(
        t,
        "[Request interrupted",
    ) || starts_with(t, "No response requested") || starts_with(t, "<system-reminder>")
        || contains_str(t, "</system-reminder>") || starts_with(t, "<ide_") || starts_with(
        t,
        "<command-name>",
    )
}

/// A path character as the project-directory name writes it: separators
/// become `/`, drive colons vanish, underscores become dashes.
pub open spec fn dir_name_char(c: char) -> Seq<char> {
    if c == '\\' {
        seq!['/']
    } else if c == ':' {
        seq![]
    } else if c == '_' {
        seq!['-']
    } else {
        seq![c]
    }
}

pub open spec fn normalize_path(s: Seq<char>) -> Seq<char>
    decreases s.len(),
{
    if s.len() == 0 {
        seq![]
    } else {
        normalize_path(s.drop_last()) + dir_name_char(s.last())
    }
}

/// The non-empty pieces, in order.
pub open spec fn nonempty_parts(ps: Seq<Seq<char>>) -> Seq<Seq<char>>
    decreases ps.len(),
{
    if ps.len() == 0 {
        seq![]
    } else {
        nonempty_parts(ps.drop_last()) + if ps.last().len() > 0 {
            seq![ps.last()]
        } else {
            seq![]
        }
    }
}

/// The first part lowercased and followed by `--`, then the others lowercased and joined by `-`.
pub open spec fn join_dir_parts(ps: Seq<Seq<char>>) -> Seq<char>
    decreases ps.len(),
{
    if ps.len() == 0 {
        seq![]
    } else if ps.len() == 1 {
        lowercase(ps[0]) + "--"@
    } else if ps.len() == 2 {
        join_dir_parts(ps.drop_last()) + lowercase(ps.last())
    } else {
        join_dir_parts(ps.drop_last()) + seq!['-'] + lowercase(ps.last())
    }
}

/// The directory name under which the CLI keeps a project's sessions,
/// e.g. `d:\game\tsunu_alive` gives `d--game-tsunu-alive`.
pub open spec fn project_dir_name(working_dir: Seq<char>) -> Seq<char> {
    let ps = nonempty_parts(split_on(normalize_path(working_dir), '/'));
    if ps.len() == 0 {
        "unknown"@
    } else {
        join_dir_parts(ps)
    }
}

/// The CLI's directory name for a project path.
pub fn get_project_dir_name(working_dir: &str) -> (r: String)
    ensures
        r@ == project_dir_name(working_dir@),
{
    let cs = chars_of(working_dir);
    let mut norm: Vec<char> = Vec::new();
    let mut i: usize = 0;
    while i < cs.len()
        invariant
            0 <= i <= cs@.len(),
            norm@ == normalize_path(cs@.take(i as int)),
        decreases cs.len() - i,
    {
        assert(cs@.take(i + 1).drop_last() =~= cs@.take(i as int));
        let c = cs[i];
        if c == '\\' {
            norm.push('/');
        } else if c == ':' {
        } else if c == '_' {
            norm.push('-');
        } else {
            norm.push(c);
        }
        assert(norm@ =~= normalize_path(cs@.take(i + 1)));
        i = i + 1;
    }
    assert(cs@.take(cs@.len() as int) =~= cs@);
    let pieces = split_chars(&norm, '/');
    let ghost all = char_seqs(pieces@);
    let mut result: Vec<char> = Vec::new();
    let mut count: usize = 0;
    let mut k: usize = 0;
    while k < pieces.len()
        invariant
            0 <= k <= pieces@.len(),
            all == char_seqs(pieces@),
            count as nat == nonempty_parts(all.take(k as int)).len(),
            count <= k,
            result@ == join_dir_parts(nonempty_parts(all.take(k as int))),
        decreases pieces.len() - k,
    {
        assert(all.take(k + 1).drop_last() =~= all.take(k as int));
        assert(all.take(k + 1).last() == pieces@[k as int]@);
        let ghost before = nonempty_parts(all.take(k as int));
        if pieces[k].len() > 0 {
            let part = string_from_chars(pieces[k].as_slice());
            let lower = to_lowercase(part.as_str());
            let lc = chars_of(lower.as_str());
            let ghost after = before.push(pieces@[k as int]@);
            assert(nonempty_parts(all.take(k + 1)) =~= after);
            assert(after.drop_last() =~= before);
            if count == 0 {
                let mut j: usize = 0;
                while j < lc.len()
                    invariant
                        0 <= j <= lc@.len(),
                        result@ == lc@.take(j as int),
                    decreases lc.len() - j,
                {
                    result.push(lc[j]);
                    assert(result@ =~= lc@.take(j + 1));
                    j = j + 1;
                }
                result.push('-');
                result.push('-');
                proof {
                    reveal_strlit("--");
                    assert(lc@.take(lc@.len() as int) =~= lc@);
                }
                assert(result@ =~= join_dir_parts(after));
            } else {
                if count > 1 {
                    result.push('-');
                }
                let ghost base = result@;
                let mut j: usize = 0;
                while j < lc.len()
                    invariant
                        0 <= j <= lc@.len(),
                        result@ == base + lc@.take(j as int),
                    decreases lc.len() - j,
                {
                    result.push(lc[j]);
                    assert(result@ =~= base + lc@.take(j + 1));
                    j = j + 1;
                }
                assert(lc@.take(lc@.len() as int) =~= lc@);
                assert(result@ =~= join_dir_parts(after));
            }
            count = count + 1;
        } else {
            assert(nonempty_parts(all.take(k + 1)) =~= before);
        }
        k = k + 1;
    }
    assert(all.take(pieces@.len() as int) =~= all);
    if count == 0 {
        return "unknown".to_owned();
    }
    string_from_chars(result.as_slice())
}

/// A front-matter value: trimmed, then stripped of double and then single quotes.
pub open spec fn field_value(v: Seq<char>) -> Seq<char> {
    strip_char(strip_char(trim(v), '"'), '\'')
}

/// `name:` and `description:` lines of the front matter; the last of each wins.
pub open spec fn frontmatter_fields(ls: Seq<Seq<char>>, name: Seq<char>, desc: Seq<char>) -> (
    Seq<char>,
    Seq<char>,
)
    decreases ls.len(),
{
    if ls.len() == 0 {
        (name, desc)
    } else {
        let (n, d) = frontmatter_fields(ls.drop_last(), name, desc);
        let l = trim(ls.last());
        if has_prefix(l, "name:"@) {
            (field_value(l.skip("name:"@.len() as int)), d)
        } else if has_prefix(l, "description:"@) {
            (n, field_value(l.skip("description:"@.len() as int)))
        } else {
            (n, d)
        }
    }
}

/// The first line, trimmed, that is neither empty nor a heading.
pub open spec fn first_text_line(ls: Seq<Seq<char>>) -> Option<Seq<char>>
    decreases ls.len(),
{
    if ls.len() == 0 {
        None
    } else {
        let t = trim(ls[0]);
        if t.len() > 0 && t[0] != '#' {
            Some(t)
        } else {
            first_text_line(ls.drop_first())
        }
    }
}

/// Where the closing `---` of a front matter starts, counted after the opening `---`.
pub open spec fn frontmatter_end(c: Seq<char>) -> Option<int> {
    if has_prefix(c, "---"@) {
        first_occurrence(c.skip(3), "---"@)
    } else {
        None
    }
}

/// The name and description a `SKILL.md` declares. Lines are cut at `\n`;
/// every rule reads them trimmed, so a `\r` before the newline and the empty
/// remainder after a final newline change nothing.
pub open spec fn skill_md(c: Seq<char>, fallback: Seq<char>) -> (Seq<char>, Seq<char>) {
    let (name, desc) = match frontmatter_end(c) {
        Some(e) => frontmatter_fields(split_on(c.skip(3).take(e), '\n'), fallback, seq![]),
        None => (fallback, seq![]),
    };
    let body = match frontmatter_end(c) {
        Some(e) => c.skip(3).skip(e + 3),
        None => c,
    };
    let description = if desc.len() == 0 {
        match first_text_line(split_on(body, '\n')) {
            Some(t) => take_chars(t, 100),
            None => desc,
        }
    } else {
        desc
    };
    (name, description)
}

fn field_value_exec(v: &Vec<char>) -> (r: Vec<char>)
    ensures
        r@ == field_value(v@),
{
    let t = trim_chars(v);
    let a = strip_char_chars(&t, '"');
    strip_char_chars(&a, '\'')
}

/// Reads the name and description of a skill from its `SKILL.md`: YAML-like
/// front matter between `---` lines, else the first plain line of the text.
pub fn parse_skill_md(content: &str, fallback_name: &str) -> (r: (String, String))
    ensures
        (r.0@, r.1@) == skill_md(content@, fallback_name@),
{
    let c = chars_of(content);
    let dashes = chars_of("---");
    let name_key = chars_of("name:");
    let desc_key = chars_of("description:");
    let mut name = chars_of(fallback_name);
    let mut description: Vec<char> = Vec::new();
    proof {
        reveal_strlit("---");
    }
    let mut end: Option<usize> = None;
    if chars_have_prefix(&c, &dashes) {
        let rest = skip_chars(&c, 3);
        end = find_chars(&rest, &dashes);
        match end {
            Some(e) => {
                let front = take_prefix(&rest, e);
                let lines = split_chars(&front, '\n');
                let ghost ls = char_seqs(lines@);
                let mut k: usize = 0;
                while k < lines.len()
                    invariant
                        0 <= k <= lines@.len(),
                        ls == char_seqs(lines@),
                        (name@, description@) == frontmatter_fields(ls.take(k as int), fallback_name@, seq![]),
                        name_key@ == "name:"@,
                        desc_key@ == "description:"@,
                    decreases lines.len() - k,
                {
                    assert(ls.take(k + 1).drop_last() =~= ls.take(k as int));
                    assert(ls.take(k + 1).last() == lines@[k as int]@);
                    let l = trim_chars(&lines[k]);
                    if chars_have_prefix(&l, &name_key) {
                        let v = skip_chars(&l, name_key.len());
                        name = field_value_exec(&v);
                    } else if chars_have_prefix(&l, &desc_key) {
                        let v = skip_chars(&l, desc_key.len());
                        description = field_value_exec(&v);
                    }
                    k = k + 1;
                }
                assert(ls.take(lines@.len() as int) =~= ls);
            },
            None => {},
        }
    }
    assert(end == match frontmatter_end(c@) { Some(e) => Some(e as usize), None => None::<usize> });
    if description.len() == 0 {
        let body = match end {
            Some(e) => {
                let rest = skip_chars(&c, 3);
                let after = skip_chars(&rest, e);
                let tail = skip_chars(&after, 3);
                assert(tail@ =~= rest@.skip(e + 3));
                tail
            },
            None => skip_chars(&c, 0),
        };
        assert(body@ =~= match frontmatter_end(c@) { Some(e) => c@.skip(3).skip(e + 3), None => c@ });
        let lines = split_chars(&body, '\n');
        let ghost ls = char_seqs(lines@);
        let mut k: usize = 0;
        let mut found: Option<Vec<char>> = None;
        assert(ls.skip(0) =~= ls);
        while k < lines.len() && found.is_none()
            invariant
                0 <= k <= lines@.len(),
                ls == char_seqs(lines@),
                match found {
                    Some(t) => first_text_line(ls) == Some(t@),
                    None => first_text_line(ls) == first_text_line(ls.skip(k as int)),
                },
            decreases lines.len() - k + if found.is_none() { 1int } else { 0int },
        {
            let t = trim_chars(&lines[k]);
            assert(ls.skip(k as int)[0] == lines@[k as int]@);
            if t.len() > 0 && t[0] != '#' {
                found = Some(t);
            } else {
                assert(ls.skip(k as int).drop_first() =~= ls.skip(k + 1));
                k = k + 1;
            }
        }
        match found {
            Some(t) => {
                description = take_chars_exec(&t, 100);
            },
            None => {
                assert(ls.skip(k as int).len() == 0);
            },
        }
    }
    (string_from_chars(name.as_slice()), string_from_chars(description.as_slice()))
}


pub struct FileModel {
    pub name: Seq<char>,
    pub path: Seq<char>,
    pub is_dir: bool,
}

impl View for FileItem {
    type V = FileModel;

    open spec fn view(&self) -> FileModel {
        FileModel { name: self.name@, path: self.path@, is_dir: self.is_dir }
    }
}

pub open spec fn file_models(v: Seq<FileItem>) -> Seq<FileModel> {
    Seq::new(v.len(), |i: int| v[i]@)
}

/// The positions of `s` taken in the order `r`.
pub open spec fn reorder<A>(s: Seq<A>, r: Seq<usize>) -> Seq<A> {
    Seq::new(r.len(), |i: int| s[r[i] as int])
}

/// At most the first `n` elements.
pub open spec fn first_n<A>(s: Seq<A>, n: nat) -> Seq<A> {
    if s.len() <= n {
        s
    } else {
        s.take(n as int)
    }
}

/// The most entries a listing returns.
pub open spec fn max_listing() -> nat {
    50
}

/// Names the @-mention menu never offers: hidden files and build or
/// dependency folders.
pub open spec fn hidden_or_ignored(name: Seq<char>) -> bool {
    has_prefix(name, "."@) || name == "node_modules"@ || name == "target"@ || name == "dist"@
}

/// A name matches the filter when its lowercase form contains the filter's.
pub open spec fn matches_filter(name: Seq<char>, filter: Option<Seq<char>>) -> bool {
    match filter {
        Some(f) => has_infix(lowercase(name), lowercase(f)),
        None => true,
    }
}

/// The path of an entry relative to the working directory.
pub open spec fn relative_path(name: Seq<char>, sub_path: Option<Seq<char>>) -> Seq<char> {
    match sub_path {
        Some(s) => s + "/"@ + name,
        None => name,
    }
}

/// The entries the menu offers, in the order the directory gave them.
pub open spec fn file_candidates(
    entries: Seq<(Seq<char>, bool)>,
    sub_path: Option<Seq<char>>,
    filter: Option<Seq<char>>,
) -> Seq<FileModel>
    decreases entries.len(),
{
    if entries.len() == 0 {
        seq![]
    } else {
        let e = entries.last();
        file_candidates(entries.drop_last(), sub_path, filter) + if !hidden_or_ignored(e.0) && matches_filter(
            e.0,
            filter,
        ) {
            seq![FileModel { name: e.0, path: relative_path(e.0, sub_path), is_dir: e.1 }]
        } else {
            seq![]
        }
    }
}

/// Folders first, then by lowercase name.
pub open spec fn file_key(f: FileModel) -> (u8, Seq<char>) {
    (if f.is_dir {
        0u8
    } else {
        1u8
    }, lowercase(f.name))
}

pub open spec fn file_keys(s: Seq<FileModel>) -> Seq<(u8, Seq<char>)> {
    Seq::new(s.len(), |i: int| file_key(s[i]))
}

/// `out` is the menu for these directory entries: the offered entries,
/// stably sorted (folders first, then by lowercase name), at most 50.
pub open spec fn file_listing(
    entries: Seq<(Seq<char>, bool)>,
    sub_path: Option<Seq<char>>,
    filter: Option<Seq<char>>,
    out: Seq<FileModel>,
) -> bool {
    let c = file_candidates(entries, sub_path, filter);
    exists|r: Seq<usize>| is_stable_order(file_keys(c), false, r) && out == first_n(reorder(c, r), max_listing())
}

pub open spec fn entry_views(v: Seq<(String, bool)>) -> Seq<(Seq<char>, bool)> {
    Seq::new(v.len(), |i: int| (v[i].0@, v[i].1))
}

pub open spec fn opt_chars_view(o: Option<&str>) -> Option<Seq<char>> {
    match o {
        Some(s) => Some(s@),
        None => None,
    }
}

impl FileItem {
    pub fn snapshot(&self) -> (r: FileItem)
        ensures
            r@ == self@,
    {
        FileItem { name: self.name.clone(), path: self.path.clone(), is_dir: self.is_dir }
    }
}

/// The @-mention menu for a directory's entries (name, is-folder), as read
/// from the directory under the working directory's `sub_path`.
pub fn select_file_items(entries: &Vec<(String, bool)>, sub_path: Option<&str>, filter: Option<&str>) -> (r: Vec<
    FileItem,
>)
    ensures
        file_listing(entry_views(entries@), opt_chars_view(sub_path), opt_chars_view(filter), file_models(r@)),
{
    let ghost ev = entry_views(entries@);
    let ghost sp = opt_chars_view(sub_path);
    let ghost fl = opt_chars_view(filter);
    let filter_lower: Option<String> = match filter {
        Some(f) => Some(to_lowercase(f)),
        None => None,
    };
    let mut cands: Vec<FileItem> = Vec::new();
    let mut keys: Vec<(u8, Vec<char>)> = Vec::new();
    let mut i: usize = 0;
    while i < entries.len()
        invariant
            0 <= i <= entries@.len(),
            ev == entry_views(entries@),
            sp == opt_chars_view(sub_path),
            fl == opt_chars_view(filter),
            match filter_lower {
                Some(x) => fl is Some && x@ == lowercase(fl->Some_0),
                None => fl is None,
            },
            file_models(cands@) == file_candidates(ev.take(i as int), sp, fl),
            key_views(keys@) == file_keys(file_models(cands@)),
        decreases entries.len() - i,
    {
        assert(ev.take(i + 1).drop_last() =~= ev.take(i as int));
        assert(ev.take(i + 1).last() == ev[i as int]);
        let name = entries[i].0.as_str();
        let is_dir = entries[i].1;
        let ignored = starts_with(name, ".") || crate::text::str_eq(name, "node_modules") || crate::text::str_eq(
            name,
            "target",
        ) || crate::text::str_eq(name, "dist");
        let lower = to_lowercase(name);
        let matches = match &filter_lower {
            Some(f) => contains_str(lower.as_str(), f.as_str()),
            None => true,
        };
        let ghost before_c = file_models(cands@);
        let ghost before_k = key_views(keys@);
        if !ignored && matches {
            let path = match sub_path {
                Some(sub) => {
                    let a = crate::text::concat(sub, "/");
                    crate::text::concat(a.as_str(), name)
                },
                None => name.to_owned(),
            };
            let item = FileItem { name: name.to_owned(), path, is_dir };
            let ghost im = item@;
            cands.push(item);
            keys.push((if is_dir { 0u8 } else { 1u8 }, chars_of(lower.as_str())));
            assert(file_models(cands@) =~= before_c.push(im));
            assert(key_views(keys@) =~= before_k.push(file_key(im)));
            assert(file_keys(file_models(cands@)) =~= file_keys(before_c).push(file_key(im)));
        } else {
        }
        assert(file_models(cands@) =~= file_candidates(ev.take(i + 1), sp, fl));
        i = i + 1;
    }
    assert(ev.take(entries@.len() as int) =~= ev);
    let order = stable_order(&keys, false);
    let ghost c = file_models(cands@);
    let mut out: Vec<FileItem> = Vec::new();
    let n: usize = if order.len() < 50 { order.len() } else { 50 };
    let mut k: usize = 0;
    while k < n
        invariant
            0 <= k <= n <= order@.len(),
            n == if order@.len() < 50 { order@.len() } else { 50 },
            c == file_models(cands@),
            is_stable_order(file_keys(c), false, order@),
            file_models(out@) == reorder(c, order@).take(k as int),
        decreases n - k,
    {
        let idx = order[k];
        let x = cands[idx].snapshot();
        let ghost before = file_models(out@);
        out.push(x);
        assert(file_models(out@) =~= before.push(c[idx as int]));
        assert(reorder(c, order@).take(k + 1) =~= reorder(c, order@).take(k as int).push(c[idx as int]));
        k = k + 1;
    }
    assert(file_models(out@) =~= first_n(reorder(c, order@), max_listing()));
    out
}


pub struct SkillModel {
    pub name: Seq<char>,
    pub description: Seq<char>,
    pub source: Seq<char>,
}

impl View for SkillItem {
    type V = SkillModel;

    open spec fn view(&self) -> SkillModel {
        SkillModel { name: self.name@, description: self.description@, source: self.source@ }
    }
}

pub open spec fn skill_models(v: Seq<SkillItem>) -> Seq<SkillModel> {
    Seq::new(v.len(), |i: int| v[i]@)
}

pub open spec fn skill_keys(s: Seq<SkillModel>) -> Seq<(u8, Seq<char>)> {
    Seq::new(s.len(), |i: int| (0u8, lowercase(s[i].name)))
}

impl SkillItem {
    pub fn snapshot(&self) -> (r: SkillItem)
        ensures
            r@ == self@,
    {
        SkillItem { name: self.name.clone(), description: self.description.clone(), source: self.source.clone() }
    }
}

/// The skill a `SKILL.md` describes, found in folder `folder_name` of the
/// user's or the project's skills.
pub fn skill_item(content: &str, folder_name: &str, source: &str) -> (r: SkillItem)
    ensures
        (r@.name, r@.description) == skill_md(content@, folder_name@),
        r@.source == source@,
{
    let (name, description) = parse_skill_md(content, folder_name);
    SkillItem { name, description, source: source.to_owned() }
}

/// The slash menu's skills, stably sorted by lowercase name.
pub fn sort_skills(skills: &Vec<SkillItem>) -> (r: Vec<SkillItem>)
    ensures
        exists|o: Seq<usize>| is_stable_order(skill_keys(skill_models(skills@)), false, o) && skill_models(r@) == reorder(
            skill_models(skills@),
            o,
        ),
{
    let ghost c = skill_models(skills@);
    let mut keys: Vec<(u8, Vec<char>)> = Vec::new();
    let mut i: usize = 0;
    while i < skills.len()
        invariant
            0 <= i <= skills@.len(),
            c == skill_models(skills@),
            key_views(keys@) == skill_keys(c).take(i as int),
        decreases skills.len() - i,
    {
        let lower = to_lowercase(skills[i].name.as_str());
        let ghost before = key_views(keys@);
        keys.push((0u8, chars_of(lower.as_str())));
        assert(key_views(keys@) =~= before.push((0u8, lowercase(c[i as int].name))));
        assert(skill_keys(c).take(i + 1) =~= skill_keys(c).take(i as int).push((0u8, lowercase(c[i as int].name))));
        i = i + 1;
    }
    assert(skill_keys(c).take(skills@.len() as int) =~= skill_keys(c));
    let order = stable_order(&keys, false);
    let mut out: Vec<SkillItem> = Vec::new();
    let mut k: usize = 0;
    while k < order.len()
        invariant
            0 <= k <= order@.len(),
            c == skill_models(skills@),
            is_stable_order(skill_keys(c), false, order@),
            skill_models(out@) == reorder(c, order@).take(k as int),
        decreases order.len() - k,
    {
        let idx = order[k];
        let x = skills[idx].snapshot();
        let ghost before = skill_models(out@);
        out.push(x);
        assert(skill_models(out@) =~= before.push(c[idx as int]));
        assert(reorder(c, order@).take(k + 1) =~= reorder(c, order@).take(k as int).push(c[idx as int]));
        k = k + 1;
    }
    assert(reorder(c, order@).take(order@.len() as int) =~= reorder(c, order@));
    out
}

pub struct SessionModel {
    pub session_id: Seq<char>,
    pub created_at: Seq<char>,
    pub last_modified: Seq<char>,
    pub summary: Option<Seq<char>>,
}

impl View for SessionItem {
    type V = SessionModel;

    open spec fn view(&self) -> SessionModel {
        SessionModel {
            session_id: self.session_id@,
            created_at: self.created_at@,
            last_modified: self.last_modified@,
            summary: match self.summary {
                Some(x) => Some(x@),
                None => None,
            },
        }
    }
}

pub open spec fn session_models(v: Seq<SessionItem>) -> Seq<SessionModel> {
    Seq::new(v.len(), |i: int| v[i]@)
}

pub open spec fn session_keys(s: Seq<SessionModel>) -> Seq<(u8, Seq<char>)> {
    Seq::new(s.len(), |i: int| (0u8, s[i].last_modified))
}

impl SessionItem {
    pub fn snapshot(&self) -> (r: SessionItem)
        ensures
            r@ == self@,
    {
        SessionItem {
            session_id: self.session_id.clone(),
            created_at: self.created_at.clone(),
            last_modified: self.last_modified.clone(),
            summary: match &self.summary {
                Some(x) => Some(x.clone()),
                None => None,
            },
        }
    }
}

/// The session list: most recently modified first (a stable sort on the
/// RFC 3339 times, compared as strings), at most 50.
pub fn order_sessions(sessions: &Vec<SessionItem>) -> (r: Vec<SessionItem>)
    ensures
        exists|o: Seq<usize>| is_stable_order(session_keys(session_models(sessions@)), true, o) && session_models(r@)
            == first_n(reorder(session_models(sessions@), o), max_listing()),
{
    let ghost c = session_models(sessions@);
    let mut keys: Vec<(u8, Vec<char>)> = Vec::new();
    let mut i: usize = 0;
    while i < sessions.len()
        invariant
            0 <= i <= sessions@.len(),
            c == session_models(sessions@),
            key_views(keys@) == session_keys(c).take(i as int),
        decreases sessions.len() - i,
    {
        let ghost before = key_views(keys@);
        keys.push((0u8, chars_of(sessions[i].last_modified.as_str())));
        assert(key_views(keys@) =~= before.push((0u8, c[i as int].last_modified)));
        assert(session_keys(c).take(i + 1) =~= session_keys(c).take(i as int).push((0u8, c[i as int].last_modified)));
        i = i + 1;
    }
    assert(session_keys(c).take(sessions@.len() as int) =~= session_keys(c));
    let order = stable_order(&keys, true);
    let mut out: Vec<SessionItem> = Vec::new();
    let n: usize = if order.len() < 50 { order.len() } else { 50 };
    let mut k: usize = 0;
    while k < n
        invariant
            0 <= k <= n <= order@.len(),
            n == if order@.len() < 50 { order@.len() } else { 50 },
            c == session_models(sessions@),
            is_stable_order(session_keys(c), true, order@),
            session_models(out@) == reorder(c, order@).take(k as int),
        decreases n - k,
    {
        let idx = order[k];
        let x = sessions[idx].snapshot();
        let ghost before = session_models(out@);
        out.push(x);
        assert(session_models(out@) =~= before.push(c[idx as int]));
        assert(reorder(c, order@).take(k + 1) =~= reorder(c, order@).take(k as int).push(c[idx as int]));
        k = k + 1;
    }
    assert(session_models(out@) =~= first_n(reorder(c, order@), max_listing()));
    out
}

/// A summary shortened to 50 characters, with `...` when it was longer.
pub open spec fn shortened(s: Seq<char>) -> Seq<char> {
    if s.len() > 50 {
        s.take(50) + "..."@
    } else {
        s
    }
}

/// The summary a transcript line gives: the text of a user message whose
/// content is a plain string.
pub open spec fn line_summary(j: Json) -> Option<Seq<char>> {
    if opt_as_str(j.member("type"@)) == Some("user"@) {
        match opt_as_str(opt_get(j.member("message"@), "content"@)) {
            Some(s) => Some(shortened(s)),
            None => None,
        }
    } else {
        None
    }
}

/// The summary of a session: that of its first line that gives one.
pub open spec fn session_summary_model(lines: Seq<Json>) -> Option<Seq<char>>
    decreases lines.len(),
{
    if lines.len() == 0 {
        None
    } else {
        match line_summary(lines[0]) {
            Some(s) => Some(s),
            None => session_summary_model(lines.drop_first()),
        }
    }
}

/// The summary of a session transcript (its lines that hold JSON, in order).
pub fn session_summary(lines: &Vec<JsonValue>) -> (r: Option<String>)
    ensures
        match r {
            Some(x) => session_summary_model(models(lines@)) == Some(x@),
            None => session_summary_model(models(lines@)) is None,
        },
{
    let ghost m = models(lines@);
    let mut i: usize = 0;
    assert(m.skip(0) =~= m);
    while i < lines.len()
        invariant
            0 <= i <= lines@.len(),
            m == models(lines@),
            session_summary_model(m) == session_summary_model(m.skip(i as int)),
        decreases lines.len() - i,
    {
        assert(m.skip(i as int)[0] == lines@[i as int]@);
        assert(m.skip(i as int).drop_first() =~= m.skip(i + 1));
        let j = &lines[i];
        let is_user = match j.get_str("type") {
            Some(t) => crate::text::str_eq(t, "user"),
            None => false,
        };
        if is_user {
            let content = match j.get("message") {
                Some(msg) => msg.get_str("content"),
                None => None,
            };
            match content {
                Some(c) => {
                    let cs = chars_of(c);
                    if cs.len() > 50 {
                        let head = take_prefix(&cs, 50);
                        let hs = string_from_chars(head.as_slice());
                        return Some(crate::text::concat(hs.as_str(), "..."));
                    } else {
                        return Some(c.to_owned());
                    }
                },
                None => {},
            }
        }
        i = i + 1;
    }
    None
}

/// The position of the most recently modified plan among `(seconds,
/// nanoseconds)` modification times: the first of the latest ones.
pub open spec fn time_lt(a: (u64, u32), b: (u64, u32)) -> bool {
    a.0 < b.0 || (a.0 == b.0 && a.1 < b.1)
}

pub open spec fn is_latest(times: Seq<(u64, u32)>, i: int) -> bool {
    &&& 0 <= i < times.len()
    &&& forall|k: int| 0 <= k < times.len() ==> !time_lt(times[i], #[trigger] times[k])
    &&& forall|k: int| 0 <= k < i ==> time_lt(#[trigger] times[k], times[i])
}

/// Picks the plan file to show (see `is_latest`); `None` when there is none.
pub fn pick_recent_plan(times: &Vec<(u64, u32)>) -> (r: Option<usize>)
    ensures
        match r {
            Some(i) => is_latest(times@, i as int),
            None => times@.len() == 0,
        },
{
    if times.len() == 0 {
        return None;
    }
    let mut best: usize = 0;
    let mut i: usize = 1;
    while i < times.len()
        invariant
            1 <= i <= times@.len(),
            best < i,
            forall|k: int| 0 <= k < i ==> !time_lt(times@[best as int], #[trigger] times@[k]),
            forall|k: int| 0 <= k < best ==> time_lt(#[trigger] times@[k], times@[best as int]),
        decreases times.len() - i,
    {
        let t = times[i];
        let b = times[best];
        if t.0 > b.0 || (t.0 == b.0 && t.1 > b.1) {
            best = i;
        }
        i = i + 1;
    }
    Some(best)
}


/// The greeting of the app's sample command.
pub fn greet(name: &str) -> (r: String)
    ensures
        r@ == "Hello, "@ + name@ + "! You've been greeted from Rust!"@,
{
    let a = crate::text::concat("Hello, ", name);
    crate::text::concat(a.as_str(), "! You've been greeted from Rust!")
}

/// The scripts of the permission hook, as shipped with the app.
pub struct HookScripts {
    pub powershell: String,
    pub shell: String,
}

/// The content of the hook script `script_name`, when it is one of the two
/// the app ships.
pub fn get_hook_script_content(script_name: &str, scripts: &HookScripts) -> (r: Option<String>)
    ensures
        script_name@ == "tsunu-permission.ps1"@ ==> (r matches Some(x) && x@ == scripts.powershell@),
        script_name@ == "tsunu-permission.sh"@ ==> (r matches Some(x) && x@ == scripts.shell@),
        script_name@ != "tsunu-permission.ps1"@ && script_name@ != "tsunu-permission.sh"@ ==> r is None,
{
    proof {
        reveal_strlit("tsunu-permission.ps1");
        reveal_strlit("tsunu-permission.sh");
        assert("tsunu-permission.ps1"@.len() != "tsunu-permission.sh"@.len());
    }
    if crate::text::str_eq(script_name, "tsunu-permission.ps1") {
        Some(scripts.powershell.clone())
    } else if crate::text::str_eq(script_name, "tsunu-permission.sh") {
        Some(scripts.shell.clone())
    } else {
        None
    }
}

/// The directory given on the command line: the argument after the first
/// `--working-dir` or `-w` (none when that flag comes last).
pub open spec fn working_dir_arg(args: Seq<Seq<char>>) -> Option<Seq<char>>
    decreases args.len(),
{
    if args.len() == 0 {
        None
    } else if args[0] == "--working-dir"@ || args[0] == "-w"@ {
        if args.len() > 1 {
            Some(args[1])
        } else {
            None
        }
    } else {
        working_dir_arg(args.drop_first())
    }
}

pub open spec fn arg_views(v: Seq<String>) -> Seq<Seq<char>> {
    Seq::new(v.len(), |i: int| v[i]@)
}

/// Finds `working_dir_arg` in the program's arguments.
pub fn find_working_dir_arg(args: &Vec<String>) -> (r: Option<String>)
    ensures
        match r {
            Some(x) => working_dir_arg(arg_views(args@)) == Some(x@),
            None => working_dir_arg(arg_views(args@)) is None,
        },
{
    let ghost a = arg_views(args@);
    let mut i: usize = 0;
    assert(a.skip(0) =~= a);
    while i < args.len()
        invariant
            0 <= i <= args@.len(),
            a == arg_views(args@),
            working_dir_arg(a) == working_dir_arg(a.skip(i as int)),
        decreases args.len() - i,
    {
        assert(a.skip(i as int)[0] == args@[i as int]@);
        if crate::text::str_eq(args[i].as_str(), "--working-dir") || crate::text::str_eq(args[i].as_str(), "-w") {
            if i + 1 < args.len() {
                assert(a.skip(i as int)[1] == args@[i + 1]@);
                return Some(args[i + 1].clone());
            }
            return None;
        }
        assert(a.skip(i as int).drop_first() =~= a.skip(i + 1));
        i = i + 1;
    }
    None
}

/// The description a `SKILL.md`'s front matter declares, if any.
pub open spec fn declared_description(c: Seq<char>) -> Seq<char> {
    match frontmatter_end(c) {
        Some(e) => frontmatter_fields(split_on(c.skip(3).take(e), '\n'), seq![], seq![]).1,
        None => seq![],
    }
}

proof fn lemma_fields_desc_independent(ls: Seq<Seq<char>>, n1: Seq<char>, n2: Seq<char>, d: Seq<char>)
    ensures
        frontmatter_fields(ls, n1, d).1 == frontmatter_fields(ls, n2, d).1,
    decreases ls.len(),
{
    if ls.len() > 0 {
        lemma_fields_desc_independent(ls.drop_last(), n1, n2, d);
    }
}

/// Unless the front matter declares a non-empty description, the skill's
/// description is taken from its text and has at most 100 characters.
pub proof fn law_skill_description_is_short(c: Seq<char>, fallback: Seq<char>)
    ensures
        declared_description(c).len() == 0 ==> skill_md(c, fallback).1.len() <= 100,
        declared_description(c).len() > 0 ==> skill_md(c, fallback).1 == declared_description(c),
{
    match frontmatter_end(c) {
        Some(e) => lemma_fields_desc_independent(split_on(c.skip(3).take(e), '\n'), fallback, seq![], seq![]),
        None => {},
    }
}

/// The pieces of a normalized path read so far: the finished non-empty
/// pieces, and the piece still open after the last `/`.
pub open spec fn part_state(x: Seq<char>) -> (Seq<Seq<char>>, Seq<char>) {
    let r = split_on(x, '/');
    (nonempty_parts(r.drop_last()), r.last())
}

pub open spec fn opt_part(p: Seq<char>) -> Seq<Seq<char>> {
    if p.len() > 0 {
        seq![p]
    } else {
        seq![]
    }
}

/// How one more character moves `part_state`.
pub open spec fn part_step(st: (Seq<Seq<char>>, Seq<char>), c: char) -> (Seq<Seq<char>>, Seq<char>) {
    if c == '/' {
        (st.0 + opt_part(st.1), seq![])
    } else {
        (st.0, st.1.push(c))
    }
}

pub open spec fn part_fold(st: (Seq<Seq<char>>, Seq<char>), y: Seq<char>) -> (Seq<Seq<char>>, Seq<char>)
    decreases y.len(),
{
    if y.len() == 0 {
        st
    } else {
        part_step(part_fold(st, y.drop_last()), y.last())
    }
}

proof fn lemma_part_step(x: Seq<char>, c: char)
    ensures
        part_state(x.push(c)) == part_step(part_state(x), c),
{
    lemma_split_on_nonempty(x, '/');
    let r = split_on(x, '/');
    assert(x.push(c).drop_last() =~= x);
    assert(x.push(c).last() == c);
    if c == '/' {
        assert(split_on(x.push(c), '/') == r.push(seq![]));
        assert(r.push(seq![]).drop_last() =~= r);
        assert(nonempty_parts(r) == nonempty_parts(r.drop_last()) + opt_part(r.last()));
    } else {
        let r2 = r.update(r.len() - 1, r.last().push(c));
        assert(split_on(x.push(c), '/') == r2);
        assert(r2.drop_last() =~= r.drop_last());
    }
}

proof fn lemma_parts_of_state(x: Seq<char>)
    ensures
        nonempty_parts(split_on(x, '/')) == part_state(x).0 + opt_part(part_state(x).1),
{
    lemma_split_on_nonempty(x, '/');
}

proof fn lemma_part_append(x: Seq<char>, y: Seq<char>)
    ensures
        part_state(x + y) == part_fold(part_state(x), y),
    decreases y.len(),
{
    if y.len() == 0 {
        assert(x + y =~= x);
    } else {
        lemma_part_append(x, y.drop_last());
        assert(x + y =~= (x + y.drop_last()).push(y.last()));
        lemma_part_step(x + y.drop_last(), y.last());
    }
}

proof fn lemma_normalize_append(a: Seq<char>, b: Seq<char>)
    ensures
        normalize_path(a + b) == normalize_path(a) + normalize_path(b),
    decreases b.len(),
{
    if b.len() == 0 {
        assert(a + b =~= a);
        assert(normalize_path(a) + normalize_path(b) =~= normalize_path(a));
    } else {
        lemma_normalize_append(a, b.drop_last());
        assert((a + b).drop_last() =~= a + b.drop_last());
        assert((a + b).last() == b.last());
        assert(normalize_path(a + b) =~= normalize_path(a) + normalize_path(b));
    }
}

proof fn lemma_same_parts_same_name(a: Seq<char>, b: Seq<char>)
    requires
        part_state(normalize_path(a)).0 + opt_part(part_state(normalize_path(a)).1) == part_state(normalize_path(b)).0
            + opt_part(part_state(normalize_path(b)).1),
    ensures
        project_dir_name(a) == project_dir_name(b),
{
    lemma_parts_of_state(normalize_path(a));
    lemma_parts_of_state(normalize_path(b));
}

proof fn lemma_normalize_single(c: char)
    ensures
        normalize_path(seq![c]) == dir_name_char(c),
{
    assert(seq![c].drop_last() =~= Seq::<char>::empty());
    assert(seq![c].last() == c);
    assert(normalize_path(Seq::<char>::empty()) == Seq::<char>::empty());
    assert(Seq::<char>::empty() + dir_name_char(c) =~= dir_name_char(c));
}

proof fn lemma_fold_single(p: (Seq<Seq<char>>, Seq<char>), c: char)
    ensures
        part_fold(p, seq![c]) == part_step(p, c),
{
    assert(seq![c].drop_last() =~= Seq::<char>::empty());
    assert(seq![c].last() == c);
    assert(part_fold(p, Seq::<char>::empty()) == p);
}

/// `s` with every `/` doubled.
pub open spec fn double_slashes(s: Seq<char>) -> Seq<char>
    decreases s.len(),
{
    if s.len() == 0 {
        seq![]
    } else {
        double_slashes(s.drop_last()) + if s.last() == '/' {
            seq!['/', '/']
        } else {
            seq![s.last()]
        }
    }
}

/// `s` with every `_` replaced by `-`.
pub open spec fn dashes_for_underscores(s: Seq<char>) -> Seq<char>
    decreases s.len(),
{
    if s.len() == 0 {
        seq![]
    } else {
        dashes_for_underscores(s.drop_last()).push(if s.last() == '_' { '-' } else { s.last() })
    }
}

/// A project path and the same path between two more slashes name the
/// same session folder.
pub proof fn law_dir_name_ignores_outer_slashes(s: Seq<char>)
    ensures
        project_dir_name(seq!['/'] + s + seq!['/']) == project_dir_name(s),
{
    let n = normalize_path(s);
    lemma_normalize_single('/');
    lemma_normalize_append(seq!['/'], s);
    lemma_normalize_append(seq!['/'] + s, seq!['/']);
    let w = seq!['/'] + s + seq!['/'];
    assert(normalize_path(w) == seq!['/'] + n + seq!['/']);
    assert(part_state(seq![]) == (Seq::<Seq<char>>::empty(), Seq::<char>::empty())) by {
        assert(split_on(seq![], '/') == seq![Seq::<char>::empty()]);
        assert(seq![Seq::<char>::empty()].drop_last() =~= Seq::<Seq<char>>::empty());
    }
    lemma_part_step(seq![], '/');
    assert(Seq::<char>::empty().push('/') =~= seq!['/']);
    assert(part_state(seq!['/']) == part_state(seq![]));
    lemma_part_append(seq!['/'], n);
    lemma_part_append(seq![], n);
    assert(Seq::<char>::empty() + n =~= n);
    lemma_part_step(seq!['/'] + n, '/');
    assert((seq!['/'] + n).push('/') =~= seq!['/'] + n + seq!['/']);
    lemma_same_parts_same_name(w, s);
}

proof fn lemma_double_slashes_state(s: Seq<char>)
    ensures
        part_state(normalize_path(double_slashes(s))) == part_state(normalize_path(s)),
    decreases s.len(),
{
    if s.len() > 0 {
        let t = s.drop_last();
        let c = s.last();
        lemma_double_slashes_state(t);
        assert(s =~= t + seq![c]);
        lemma_normalize_append(t, seq![c]);
        let dc = if c == '/' { seq!['/', '/'] } else { seq![c] };
        lemma_normalize_append(double_slashes(t), dc);
        assert(seq![c].drop_last() =~= Seq::<char>::empty());
        lemma_normalize_single(c);
        let p = part_state(normalize_path(t));
        lemma_part_append(normalize_path(double_slashes(t)), normalize_path(dc));
        lemma_part_append(normalize_path(t), normalize_path(seq![c]));
        if c == '/' {
            assert(seq!['/', '/'].drop_last() =~= seq!['/']);
            assert(normalize_path(seq!['/', '/']) =~= seq!['/', '/']);
            assert(seq!['/', '/'].drop_last() =~= seq!['/']);
            assert(seq!['/'].drop_last() =~= Seq::<char>::empty());
            assert(part_fold(p, seq!['/', '/']) == part_step(part_fold(p, seq!['/']), '/'));
            lemma_fold_single(p, '/');
            assert(opt_part(Seq::<char>::empty()) =~= Seq::<Seq<char>>::empty());
            assert(part_step(part_step(p, '/'), '/').0 =~= part_step(p, '/').0);
        }
    }
}

/// Doubling the slashes of a project path does not change its session folder.
pub proof fn law_dir_name_ignores_doubled_slashes(s: Seq<char>)
    ensures
        project_dir_name(double_slashes(s)) == project_dir_name(s),
{
    lemma_double_slashes_state(s);
    lemma_same_parts_same_name(double_slashes(s), s);
}

proof fn lemma_dashes_normalize(s: Seq<char>)
    ensures
        normalize_path(dashes_for_underscores(s)) == normalize_path(s),
    decreases s.len(),
{
    if s.len() > 0 {
        lemma_dashes_normalize(s.drop_last());
        let d = dashes_for_underscores(s);
        assert(d.drop_last() =~= dashes_for_underscores(s.drop_last()));
    }
}

/// Underscores and dashes in a project path give the same session folder.
pub proof fn law_dir_name_underscore_is_dash(s: Seq<char>)
    ensures
        project_dir_name(dashes_for_underscores(s)) == project_dir_name(s),
{
    lemma_dashes_normalize(s);
}

} // verus!
