//! Where the overlay looks for the Codex executable: candidate paths in order, each once,
//! and the test whether a file is the Codex executable. The file system is read by the
//! application; paths arrive here as text.

use vstd::prelude::*;
use crate::text::{ascii_lower, chars_of, ascii_lower_chars, string_from_chars};
use crate::errors::{unicode_white_space, is_whitespace};
use crate::supervisor::{trim, trim_spec};

verus! {

/// The text by which two paths are compared: ASCII case is ignored on Windows.
pub open spec fn path_key(path: Seq<char>, case_insensitive: bool) -> Seq<char> {
    if case_insensitive {
        ascii_lower(path)
    } else {
        path
    }
}

/// Some path of `paths` has the same key as `path`.
pub open spec fn has_path(paths: Seq<String>, path: Seq<char>, case_insensitive: bool) -> bool {
    exists|i: int| 0 <= i < paths.len() && path_key(#[trigger] paths[i]@, case_insensitive) == path_key(path, case_insensitive)
}

fn key_of(path: &String, case_insensitive: bool) -> (k: String)
    ensures
        k@ == path_key(path@, case_insensitive),
{
    if case_insensitive {
        string_from_chars(&ascii_lower_chars(&chars_of(path.as_str())))
    } else {
        path.clone()
    }
}

/// Appends `path` unless an equal path (ASCII case ignored when `case_insensitive`) is
/// already there.
pub fn push_unique_path(paths: &mut Vec<String>, path: String, case_insensitive: bool)
    ensures
        has_path(old(paths)@, path@, case_insensitive) ==> final(paths)@ == old(paths)@,
        !has_path(old(paths)@, path@, case_insensitive) ==> final(paths)@ == old(paths)@.push(path),
{
    let wanted = key_of(&path, case_insensitive);
    let mut i: usize = 0;
    while i < paths.len()
        invariant
            i <= paths.len(),
            paths@ == old(paths)@,
            wanted@ == path_key(path@, case_insensitive),
            forall|j: int| 0 <= j < i ==> path_key(#[trigger] paths@[j]@, case_insensitive) != wanted@,
        decreases paths.len() - i,
    {
        if key_of(&paths[i], case_insensitive) == wanted {
            assert(path_key(paths@[i as int]@, case_insensitive) == path_key(path@, case_insensitive));
            return;
        }
        i = i + 1;
    }
    paths.push(path);
}

/// The list after `push_unique_path` of one path.
pub open spec fn pushed_unique(paths: Seq<String>, path: String, case_insensitive: bool) -> Seq<String> {
    if has_path(paths, path@, case_insensitive) {
        paths
    } else {
        paths.push(path)
    }
}

/// The list after `push_unique_path` of the first `n` of `more`, in order.
pub open spec fn pushed_all(paths: Seq<String>, more: Seq<String>, n: nat, case_insensitive: bool) -> Seq<String>
    decreases n,
{
    if n == 0 {
        paths
    } else {
        pushed_unique(pushed_all(paths, more, (n - 1) as nat, case_insensitive), more[n - 1], case_insensitive)
    }
}

/// Appends each of `more` in order with `push_unique_path`.
pub fn push_unique_paths(paths: &mut Vec<String>, more: &Vec<String>, case_insensitive: bool)
    ensures
        final(paths)@ == pushed_all(old(paths)@, more@, more@.len(), case_insensitive),
{
    let mut i: usize = 0;
    while i < more.len()
        invariant
            i <= more.len(),
            paths@ == pushed_all(old(paths)@, more@, i as nat, case_insensitive),
        decreases more.len() - i,
    {
        push_unique_path(paths, more[i].clone(), case_insensitive);
        i = i + 1;
    }
}

/// The paths of the groups one after the other.
pub open spec fn concat_groups(groups: Seq<Vec<String>>) -> Seq<String>
    decreases groups.len(),
{
    if groups.len() == 0 {
        seq![]
    } else {
        concat_groups(groups.drop_last()) + groups.last()@
    }
}

proof fn lemma_pushed_all_append(paths: Seq<String>, a: Seq<String>, b: Seq<String>, n: nat, case_insensitive: bool)
    requires
        n <= b.len(),
    ensures
        pushed_all(paths, a + b, a.len() + n, case_insensitive)
            == pushed_all(pushed_all(paths, a, a.len(), case_insensitive), b, n, case_insensitive),
    decreases n,
{
    if n == 0 {
        lemma_pushed_all_prefix(paths, a, a + b, a.len(), case_insensitive);
    } else {
        lemma_pushed_all_append(paths, a, b, (n - 1) as nat, case_insensitive);
        assert((a + b)[a.len() + n - 1] == b[n - 1]);
    }
}

proof fn lemma_pushed_all_prefix(paths: Seq<String>, a: Seq<String>, c: Seq<String>, n: nat, case_insensitive: bool)
    requires
        n <= a.len(),
        n <= c.len(),
        forall|i: int| 0 <= i < n ==> a[i] == c[i],
    ensures
        pushed_all(paths, a, n, case_insensitive) == pushed_all(paths, c, n, case_insensitive),
    decreases n,
{
    if n > 0 {
        lemma_pushed_all_prefix(paths, a, c, (n - 1) as nat, case_insensitive);
    }
}

/// The candidate paths of several groups, in order, each path once (ASCII case ignored when
/// `case_insensitive`): the first occurrence of a path is kept.
pub fn collect_candidates(groups: &Vec<Vec<String>>, case_insensitive: bool) -> (paths: Vec<String>)
    ensures
        paths@ == pushed_all(seq![], concat_groups(groups@), concat_groups(groups@).len(), case_insensitive),
{
    let mut paths: Vec<String> = Vec::new();
    let mut i: usize = 0;
    while i < groups.len()
        invariant
            i <= groups.len(),
            paths@ == pushed_all(seq![], concat_groups(groups@.take(i as int)), concat_groups(groups@.take(i as int)).len(), case_insensitive),
        decreases groups.len() - i,
    {
        let ghost before = concat_groups(groups@.take(i as int));
        push_unique_paths(&mut paths, &groups[i], case_insensitive);
        proof {
            let next = groups@.take(i + 1);
            assert(next.drop_last() =~= groups@.take(i as int));
            assert(next.last() == groups@[i as int]);
            assert(concat_groups(next) == before + groups@[i as int]@);
            lemma_pushed_all_append(seq![], before, groups@[i as int]@, groups@[i as int]@.len(), case_insensitive);
        }
        i = i + 1;
    }
    assert(groups@.take(groups.len() as int) =~= groups@);
    paths
}

/// No two paths of the list have the same key.
pub open spec fn paths_unique(paths: Seq<String>, case_insensitive: bool) -> bool {
    forall|i: int, j: int| 0 <= i < j < paths.len() ==> path_key(#[trigger] paths[i]@, case_insensitive) != path_key(#[trigger] paths[j]@, case_insensitive)
}

/// A list of candidates built with `push_unique_path` never holds the same path twice.
pub proof fn law_push_unique_keeps_paths_unique(paths: Seq<String>, path: String, case_insensitive: bool)
    requires
        paths_unique(paths, case_insensitive),
    ensures
        paths_unique(pushed_unique(paths, path, case_insensitive), case_insensitive),
{
    if !has_path(paths, path@, case_insensitive) {
        let q = paths.push(path);
        assert forall|i: int, j: int| 0 <= i < j < q.len() implies path_key(#[trigger] q[i]@, case_insensitive) != path_key(#[trigger] q[j]@, case_insensitive) by {
            if j == paths.len() {
                assert(q[i] == paths[i]);
            }
        }
    }
}

/// The executable's file name on the platform: `codex.exe` (any ASCII case) on Windows,
/// `codex` elsewhere.
pub open spec fn is_codex_file_name(name: Seq<char>, windows: bool) -> bool {
    if windows {
        ascii_lower(name) == "codex.exe"@
    } else {
        name == "codex"@
    }
}

/// Whether a path is the Codex executable: it is a file and its file name is the
/// executable's name on the platform.
pub fn is_codex_executable(is_file: bool, file_name: Option<&str>, windows: bool) -> (r: bool)
    ensures
        r == (is_file && match file_name {
            Some(n) => is_codex_file_name(n@, windows),
            None => false,
        }),
{
    if !is_file {
        return false;
    }
    match file_name {
        Some(name) => if windows {
            string_from_chars(&ascii_lower_chars(&chars_of(name))) == String::from_str("codex.exe")
        } else {
            String::from_str(name) == String::from_str("codex")
        },
        None => false,
    }
}

/// Whether a chosen executable has the `.exe` extension required on Windows.
pub fn is_exe_extension(extension: Option<&str>) -> (r: bool)
    ensures
        r == match extension {
            Some(e) => ascii_lower(e@) == "exe"@,
            None => false,
        },
{
    match extension {
        Some(e) => string_from_chars(&ascii_lower_chars(&chars_of(e))) == String::from_str("exe"),
        None => false,
    }
}

fn strings(items: &[&str]) -> (v: Vec<String>)
    ensures
        v@.len() == items@.len(),
        forall|i: int| 0 <= i < items@.len() ==> #[trigger] v@[i]@ == items@[i]@,
{
    let mut v: Vec<String> = Vec::new();
    let mut i: usize = 0;
    while i < items.len()
        invariant
            i <= items.len(),
            v@.len() == i,
            forall|k: int| 0 <= k < i ==> #[trigger] v@[k]@ == items@[k]@,
        decreases items.len() - i,
    {
        v.push(String::from_str(items[i]));
        i = i + 1;
    }
    v
}

/// The fixed install locations checked on Unix, after the `PATH` entries.
pub fn unix_fixed_candidates() -> (v: Vec<String>)
    ensures
        v@.len() == 4,
        v@[0]@ == "/usr/local/bin/codex"@,
        v@[1]@ == "/usr/bin/codex"@,
        v@[2]@ == "/opt/homebrew/bin/codex"@,
        v@[3]@ == "/opt/local/bin/codex"@,
{
    let items: [&str; 4] = ["/usr/local/bin/codex", "/usr/bin/codex", "/opt/homebrew/bin/codex", "/opt/local/bin/codex"];
    strings(&items)
}

/// The locations under the home directory checked on Unix, relative to it.
pub fn unix_home_candidates() -> (v: Vec<String>)
    ensures
        v@.len() == 3,
        v@[0]@ == ".local/bin/codex"@,
        v@[1]@ == ".cargo/bin/codex"@,
        v@[2]@ == ".npm-global/bin/codex"@,
{
    let items: [&str; 3] = [".local/bin/codex", ".cargo/bin/codex", ".npm-global/bin/codex"];
    strings(&items)
}

/// The directories under the home directory searched on Unix (four levels deep), relative to it.
pub fn unix_home_search_roots() -> (v: Vec<String>)
    ensures
        v@.len() == 4,
        v@[0]@ == ".vscode/extensions"@,
        v@[1]@ == ".vscode-insiders/extensions"@,
        v@[2]@ == ".cursor/extensions"@,
        v@[3]@ == ".nvm/versions/node"@,
{
    let items: [&str; 4] = [".vscode/extensions", ".vscode-insiders/extensions", ".cursor/extensions", ".nvm/versions/node"];
    strings(&items)
}

/// The directories searched on Windows under `%USERPROFILE%`, relative to it.
pub fn windows_profile_roots() -> (v: Vec<String>)
    ensures
        v@.len() == 4,
        v@[0]@ == ".vscode\\extensions"@,
        v@[1]@ == ".vscode-insiders\\extensions"@,
        v@[2]@ == ".cursor\\extensions"@,
        v@[3]@ == ".local\\bin"@,
{
    let items: [&str; 4] = [".vscode\\extensions", ".vscode-insiders\\extensions", ".cursor\\extensions", ".local\\bin"];
    strings(&items)
}

/// The directories searched on Windows under `%APPDATA%`, relative to it.
pub fn windows_app_data_roots() -> (v: Vec<String>)
    ensures
        v@.len() == 4,
        v@[0]@ == "npm"@,
        v@[1]@ == "Code\\User\\extensions"@,
        v@[2]@ == "Code - Insiders\\User\\extensions"@,
        v@[3]@ == "VSCodium\\User\\extensions"@,
{
    let items: [&str; 4] = ["npm", "Code\\User\\extensions", "Code - Insiders\\User\\extensions", "VSCodium\\User\\extensions"];
    strings(&items)
}

/// The directories searched on Windows under `%LOCALAPPDATA%`, relative to it.
pub fn windows_local_app_data_roots() -> (v: Vec<String>)
    ensures
        v@.len() == 4,
        v@[0]@ == "Programs\\Codex"@,
        v@[1]@ == "Programs\\OpenAI"@,
        v@[2]@ == "OpenAI"@,
        v@[3]@ == "Microsoft\\WinGet\\Packages"@,
{
    let items: [&str; 4] = ["Programs\\Codex", "Programs\\OpenAI", "OpenAI", "Microsoft\\WinGet\\Packages"];
    strings(&items)
}

/// The directories searched on Windows under `%ProgramFiles%`, relative to it.
pub fn windows_program_files_roots() -> (v: Vec<String>)
    ensures
        v@.len() == 2,
        v@[0]@ == "Codex"@,
        v@[1]@ == "OpenAI"@,
{
    let items: [&str; 2] = ["Codex", "OpenAI"];
    strings(&items)
}

/// The lines of a text split at `\n` (the last line may be empty).
pub open spec fn split_lines(s: Seq<char>) -> Seq<Seq<char>>
    decreases s.len(),
{
    if s.len() == 0 {
        seq![seq![]]
    } else {
        let prev = split_lines(s.drop_last());
        if s.last() == '\n' {
            prev.push(seq![])
        } else {
            prev.update(prev.len() - 1, prev.last().push(s.last()))
        }
    }
}

/// The number of leading `"` characters.
pub open spec fn leading_quotes(s: Seq<char>) -> nat
    decreases s.len(),
{
    if s.len() > 0 && s[0] == '"' {
        1 + leading_quotes(s.drop_first())
    } else {
        0
    }
}

/// The number of trailing `"` characters.
pub open spec fn trailing_quotes(s: Seq<char>) -> nat
    decreases s.len(),
{
    if s.len() > 0 && s.last() == '"' {
        1 + trailing_quotes(s.drop_last())
    } else {
        0
    }
}

/// `str::trim_matches('"')`.
pub open spec fn trim_quotes(s: Seq<char>) -> Seq<char> {
    let a = s.skip(leading_quotes(s) as int);
    a.take(a.len() - trailing_quotes(a))
}

/// The path written on one line of `where.exe` output.
pub open spec fn where_line_path(line: Seq<char>) -> Seq<char> {
    trim_quotes(trim_spec(line))
}

proof fn lemma_split_lines_nonempty(s: Seq<char>)
    ensures
        split_lines(s).len() >= 1,
    decreases s.len(),
{
    if s.len() > 0 {
        lemma_split_lines_nonempty(s.drop_last());
    }
}

proof fn lemma_quotes_bounds(s: Seq<char>)
    ensures
        leading_quotes(s) <= s.len(),
        trailing_quotes(s) <= s.len(),
    decreases s.len(),
{
    if s.len() > 0 {
        lemma_quotes_bounds(s.drop_first());
        lemma_quotes_bounds(s.drop_last());
    }
}

/// Removes leading and trailing `"` characters.
fn trim_quotes_exec(s: &String) -> (r: String)
    ensures
        r@ == trim_quotes(s@),
{
    let v = chars_of(s.as_str());
    assert(s@.skip(0) =~= s@);
    let mut start: usize = 0;
    while start < v.len() && v[start] == '"'
        invariant
            start <= v.len(),
            v@ == s@,
            leading_quotes(s@) == start + leading_quotes(s@.skip(start as int)),
        decreases v.len() - start,
    {
        assert(s@.skip(start as int).drop_first() =~= s@.skip(start + 1));
        assert(s@.skip(start as int)[0] == v@[start as int]);
        start = start + 1;
    }
    let ghost a = s@.skip(start as int);
    let mut end: usize = v.len();
    assert(a.take(end - start) =~= a);
    while end > start && v[end - 1] == '"'
        invariant
            start <= end <= v.len(),
            v@ == s@,
            a == s@.skip(start as int),
            trailing_quotes(a) == (v.len() - end) + trailing_quotes(a.take(end - start)),
        decreases end,
    {
        assert(a.take(end - start).drop_last() =~= a.take(end - start - 1));
        assert(a.take(end - start).last() == v@[end - 1]);
        end = end - 1;
    }
    proof {
        lemma_quotes_bounds(s@);
        assert(a.take(end - start) =~= a.take(a.len() - trailing_quotes(a)));
    }
    let r = crate::text::string_from_range(&v, start, end);
    assert(r@ =~= trim_quotes(s@));
    r
}

/// The paths named by the first `n` lines, skipping lines that name none.
pub open spec fn where_paths(lines: Seq<Seq<char>>, n: nat) -> Seq<Seq<char>>
    decreases n,
{
    if n == 0 {
        seq![]
    } else {
        let rest = where_paths(lines, (n - 1) as nat);
        let p = where_line_path(lines[n - 1]);
        if p.len() > 0 {
            rest.push(p)
        } else {
            rest
        }
    }
}

/// The paths in the output of `where.exe codex.exe`: one per line, trimmed of whitespace and
/// quotes, empty lines skipped.
pub open spec fn where_output_paths(text: Seq<char>) -> Seq<Seq<char>> {
    where_paths(split_lines(text), split_lines(text).len())
}

/// Appends the path of one line, if it names one.
fn push_line_path(out: &mut Vec<String>, line: &Vec<char>)
    ensures
        crate::checkpoint::texts_of(final(out)@) == if where_line_path(line@).len() > 0 {
            crate::checkpoint::texts_of(old(out)@).push(where_line_path(line@))
        } else {
            crate::checkpoint::texts_of(old(out)@)
        },
{
    let text = crate::text::string_from_chars(line);
    let trimmed = trim(text.as_str());
    let path = trim_quotes_exec(&trimmed);
    if chars_of(path.as_str()).len() > 0 {
        let ghost before = crate::checkpoint::texts_of(out@);
        out.push(path);
        assert(crate::checkpoint::texts_of(out@) =~= before.push(where_line_path(line@)));
    }
}

/// The paths listed by `where.exe codex.exe`.
pub fn parse_where_output(text: &str) -> (paths: Vec<String>)
    ensures
        crate::checkpoint::texts_of(paths@) == where_output_paths(text@),
{
    let chars = chars_of(text);
    let mut out: Vec<String> = Vec::new();
    let mut line: Vec<char> = Vec::new();
    let mut i: usize = 0;
    assert(chars@.take(0) =~= Seq::<char>::empty());
    while i < chars.len()
        invariant
            i <= chars.len(),
            chars@ == text@,
            split_lines(chars@.take(i as int)).len() >= 1,
            line@ == split_lines(chars@.take(i as int)).last(),
            crate::checkpoint::texts_of(out@) == where_paths(split_lines(chars@.take(i as int)), (split_lines(chars@.take(i as int)).len() - 1) as nat),
        decreases chars.len() - i,
    {
        let ghost prefix = chars@.take(i as int);
        let ghost lines = split_lines(prefix);
        assert(chars@.take(i + 1).drop_last() =~= prefix);
        let c = chars[i];
        if c == '\n' {
            push_line_path(&mut out, &line);
            line = Vec::new();
            proof {
                let next = split_lines(chars@.take(i + 1));
                assert(next == lines.push(seq![]));
                assert(next[lines.len() - 1] == lines.last());
                assert(where_paths(next, lines.len() as nat) == where_paths(lines, lines.len() as nat)) by {
                    lemma_where_paths_prefix(next, lines, lines.len() as nat);
                }
                assert(line@ =~= next.last());
            }
        } else {
            line.push(c);
            proof {
                let next = split_lines(chars@.take(i + 1));
                assert(next == lines.update(lines.len() - 1, lines.last().push(c)));
                lemma_where_paths_prefix(next, lines, (lines.len() - 1) as nat);
            }
        }
        i = i + 1;
    }
    assert(chars@.take(chars.len() as int) =~= chars@);
    push_line_path(&mut out, &line);
    out
}

/// `where_paths` of the first `n` lines depends on those lines only.
proof fn lemma_where_paths_prefix(a: Seq<Seq<char>>, b: Seq<Seq<char>>, n: nat)
    requires
        n <= a.len(),
        n <= b.len(),
        forall|k: int| 0 <= k < n ==> a[k] == b[k],
    ensures
        where_paths(a, n) == where_paths(b, n),
    decreases n,
{
    if n > 0 {
        lemma_where_paths_prefix(a, b, (n - 1) as nat);
    }
}

} // verus!
