//! The language id of a file, from its extension.

use crate::text::chars_of;
use vstd::prelude::*;

verus! {

/// The part of `s` after its last `c` (all of `s` when it has no `c`).
pub open spec fn after_last(s: Seq<char>, c: char) -> Seq<char>
    decreases s.len(),
{
    if s.len() == 0 {
        s
    } else if s.last() == c {
        Seq::empty()
    } else {
        after_last(s.drop_last(), c).push(s.last())
    }
}

/// `p` without what `Path::file_name` skips at its end: trailing `/`
/// separators and `.` components.
pub open spec fn trim_path_end(p: Seq<char>) -> Seq<char>
    decreases p.len(),
{
    if p.len() > 0 && p.last() == '/' {
        trim_path_end(p.drop_last())
    } else if p.len() > 0 && p.last() == '.' && (p.len() == 1 || p[p.len() - 2] == '/') {
        trim_path_end(p.drop_last())
    } else {
        p
    }
}

/// The file name of a `/`-separated path, as `Path::file_name` gives it:
/// its last component once trailing separators and `.` components are
/// dropped; none when that component is `..` or there is none.
pub open spec fn file_name_spec(path: Seq<char>) -> Option<Seq<char>> {
    let name = after_last(trim_path_end(path), '/');
    if name.len() == 0 || name == seq!['.', '.'] {
        None
    } else {
        Some(name)
    }
}

/// The extension of a path, as `Path::extension` gives it: the text after
/// the last `.` of the file name, where that `.` is not its first character
/// (a name such as `.bashrc` has none).
pub open spec fn extension_spec(path: Seq<char>) -> Option<Seq<char>> {
    match file_name_spec(path) {
        Some(name) => {
            let ext = after_last(name, '.');
            if ext.len() + 1 < name.len() {
                Some(ext)
            } else {
                None
            }
        },
        None => None,
    }
}

pub open spec fn language_for_extension(e: Seq<char>) -> Option<Seq<char>> {
    if e == "rs"@ {
        Some("rust"@)
    } else if e == "js"@ || e == "jsx"@ || e == "mjs"@ || e == "cjs"@ {
        Some("javascript"@)
    } else if e == "ts"@ || e == "tsx"@ {
        Some("typescript"@)
    } else if e == "py"@ || e == "pyi"@ {
        Some("python"@)
    } else if e == "json"@ {
        Some("json"@)
    } else if e == "md"@ {
        Some("markdown"@)
    } else if e == "toml"@ {
        Some("toml"@)
    } else if e == "yaml"@ || e == "yml"@ {
        Some("yaml"@)
    } else if e == "html"@ {
        Some("html"@)
    } else if e == "css"@ {
        Some("css"@)
    } else if e == "go"@ {
        Some("go"@)
    } else if e == "c"@ || e == "h"@ {
        Some("c"@)
    } else if e == "cpp"@ || e == "cc"@ || e == "cxx"@ || e == "hpp"@ || e == "hxx"@ {
        Some("cpp"@)
    } else {
        None
    }
}

/// Where the last `c` of `t` is just before position `j`, or `t` has none
/// and `j` is 0, the part after the last `c` starts at `j`.
proof fn lemma_after_last_at(t: Seq<char>, c: char, j: int)
    requires
        0 <= j <= t.len(),
        forall|k: int| j <= k < t.len() ==> t[k] != c,
        j == 0 || t[j - 1] == c,
    ensures
        after_last(t, c) == t.subrange(j, t.len() as int),
    decreases t.len(),
{
    if t.len() == j {
        if j > 0 {
            assert(t.last() == c);
        }
        assert(t.subrange(j, t.len() as int) =~= Seq::<char>::empty());
    } else {
        let d = t.drop_last();
        assert forall|k: int| j <= k < d.len() implies d[k] != c by {
            assert(d[k] == t[k]);
        }
        if j > 0 {
            assert(d[j - 1] == t[j - 1]);
        }
        lemma_after_last_at(d, c, j);
        assert(t.subrange(j, t.len() as int) =~= d.subrange(j, d.len() as int).push(t.last()));
    }
}

/// Position just after the last `c` in `s[..end]`, or 0 when there is none;
/// `s[result..end]` is then `after_last(s[..end], c)`.
fn start_after_last(s: &Vec<char>, c: char, end: usize) -> (r: usize)
    requires
        end <= s@.len(),
    ensures
        r <= end,
        s@.subrange(r as int, end as int) == after_last(s@.subrange(0, end as int), c),
        r > 0 ==> s@[r - 1] == c,
        forall|k: int| r <= k < end ==> s@[k] != c,
{
    let mut i: usize = end;
    while i > 0
        invariant
            i <= end <= s@.len(),
            after_last(s@.subrange(0, end as int), c) == after_last(s@.subrange(0, i as int), c)
                + s@.subrange(i as int, end as int),
            forall|k: int| i <= k < end ==> s@[k] != c,
        decreases i,
    {
        let ghost pre = s@.subrange(0, i as int);
        assert(pre.drop_last() =~= s@.subrange(0, i - 1));
        if s[i - 1] == c {
            assert(after_last(pre, c) =~= Seq::<char>::empty());
            assert(after_last(s@.subrange(0, end as int), c) =~= s@.subrange(i as int, end as int));
            return i;
        }
        assert(after_last(pre, c) == after_last(s@.subrange(0, i - 1), c).push(s@[i - 1]));
        assert(s@.subrange(i - 1, end as int) =~= seq![s@[i - 1]] + s@.subrange(
            i as int,
            end as int,
        ));
        assert(after_last(s@.subrange(0, i - 1), c).push(s@[i - 1]) + s@.subrange(
            i as int,
            end as int,
        ) =~= after_last(s@.subrange(0, i - 1), c) + s@.subrange(i - 1, end as int));
        i = i - 1;
    }
    assert(after_last(s@.subrange(0, 0), c) =~= Seq::<char>::empty());
    assert(s@.subrange(0, 0) =~= Seq::<char>::empty());
    0
}

fn text_is(s: &String, lit: &str) -> (r: bool)
    ensures
        r == (s@ == lit@),
{
    *s == String::from_str(lit)
}

fn lang(name: &str) -> (r: Option<String>)
    ensures
        r matches Some(v) && v@ == name@,
{
    Some(String::from_str(name))
}

/// The language id for a file path, from its extension.
pub fn detect_language(path: &str) -> (r: Option<String>)
    ensures
        match extension_spec(path@) {
            Some(e) => match language_for_extension(e) {
                Some(l) => (r matches Some(v) && v@ == l),
                None => r is None,
            },
            None => r is None,
        },
{
    let p = chars_of(path);
    let mut len = p.len();
    assert(p@.subrange(0, len as int) =~= p@);
    while len > 0 && (p[len - 1] == '/' || (p[len - 1] == '.' && (len == 1 || p[len - 2] == '/')))
        invariant
            len <= p@.len(),
            trim_path_end(p@) == trim_path_end(p@.subrange(0, len as int)),
        decreases len,
    {
        assert(p@.subrange(0, len as int).drop_last() =~= p@.subrange(0, len - 1));
        len = len - 1;
    }
    let ghost trimmed = p@.subrange(0, len as int);
    assert(trim_path_end(p@) == trimmed);
    let name_start = start_after_last(&p, '/', len);
    let ext_start = start_after_last(&p, '.', len);
    let ghost name = p@.subrange(name_start as int, len as int);
    proof {
        assert(name == after_last(trimmed, '/'));
        if ext_start > name_start {
            assert forall|k: int| ext_start - name_start <= k < name.len() implies name[k] != '.' by {
                assert(name[k] == p@[name_start + k]);
            }
            assert(name[ext_start - name_start - 1] == p@[ext_start - 1]);
            lemma_after_last_at(name, '.', ext_start - name_start);
            assert(name.subrange(ext_start - name_start, name.len() as int) =~= p@.subrange(
                ext_start as int,
                len as int,
            ));
        } else {
            assert forall|k: int| 0 <= k < name.len() implies name[k] != '.' by {
                assert(name[k] == p@[name_start + k]);
            }
            lemma_after_last_at(name, '.', 0);
            assert(name.subrange(0, name.len() as int) =~= name);
        }
    }
    if len - name_start == 2 && p[name_start] == '.' && p[name_start + 1] == '.' {
        assert(name =~= seq!['.', '.']);
        return None;
    }
    assert(name.len() == 2 ==> name != seq!['.', '.']) by {
        if name.len() == 2 && name == seq!['.', '.'] {
            assert(name[0] == p@[name_start as int]);
            assert(name[1] == p@[name_start + 1]);
        }
    }
    if ext_start <= name_start || ext_start - name_start <= 1 {
        return None;
    }
    let e = String::from_str(path.substring_char(ext_start, len));
    if text_is(&e, "rs") {
        lang("rust")
    } else if text_is(&e, "js") || text_is(&e, "jsx") || text_is(&e, "mjs") || text_is(&e, "cjs") {
        lang("javascript")
    } else if text_is(&e, "ts") || text_is(&e, "tsx") {
        lang("typescript")
    } else if text_is(&e, "py") || text_is(&e, "pyi") {
        lang("python")
    } else if text_is(&e, "json") {
        lang("json")
    } else if text_is(&e, "md") {
        lang("markdown")
    } else if text_is(&e, "toml") {
        lang("toml")
    } else if text_is(&e, "yaml") || text_is(&e, "yml") {
        lang("yaml")
    } else if text_is(&e, "html") {
        lang("html")
    } else if text_is(&e, "css") {
        lang("css")
    } else if text_is(&e, "go") {
        lang("go")
    } else if text_is(&e, "c") || text_is(&e, "h") {
        lang("c")
    } else if text_is(&e, "cpp") || text_is(&e, "cc") || text_is(&e, "cxx") || text_is(&e, "hpp")
        || text_is(&e, "hxx") {
        lang("cpp")
    } else {
        None
    }
}

} // verus!
