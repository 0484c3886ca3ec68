use vstd::prelude::*;
use crate::args::chars_of;
use crate::query::push_char;

verus! {

/// The last position of `c` in `s` before `end`, or -1.
pub open spec fn last_index_of(s: Seq<char>, c: char, end: int) -> int
    decreases end,
{
    if end <= 0 {
        -1
    } else if s[end - 1] == c {
        end - 1
    } else {
        last_index_of(s, c, end - 1)
    }
}

/// What follows the last `.` of a path; the whole path where it has none.
pub open spec fn extension_of(path: Seq<char>) -> Seq<char> {
    path.subrange(last_index_of(path, '.', path.len() as int) + 1, path.len() as int)
}

/// The extensions of the files that are served as raw bytes.
pub open spec fn binary_extension(ext: Seq<char>) -> bool {
    ext == "ico"@ || ext == "png"@ || ext == "webp"@ || ext == "ttf"@ || ext == "woff2"@ || ext
        == "woff"@
}

/// A page asked for without an extension is its `.html` file.
pub open spec fn page_file(name: Seq<char>) -> Seq<char> {
    if last_index_of(name, '.', name.len() as int) < 0 {
        name + ".html"@
    } else {
        name
    }
}

fn find_last(s: &Vec<char>, c: char) -> (r: Option<usize>)
    ensures
        match r {
            Some(i) => i < s@.len() && i as int == last_index_of(s@, c, s@.len() as int),
            None => last_index_of(s@, c, s@.len() as int) == -1,
        },
{
    let mut end: usize = s.len();
    while end > 0
        invariant
            end <= s@.len(),
            last_index_of(s@, c, end as int) == last_index_of(s@, c, s@.len() as int),
        decreases end,
    {
        if s[end - 1] == c {
            return Some(end - 1);
        }
        end = end - 1;
    }
    None
}

/// The extension of `path`: what follows its last `.`.
pub fn file_extension(path: &String) -> (r: String)
    ensures
        r@ == extension_of(path@),
{
    let cs = chars_of(path);
    let n = cs.len();
    let from: usize = match find_last(&cs, '.') {
        Some(i) => {
            assert(i < n);
            i + 1
        },
        None => 0,
    };
    let mut out = String::new();
    let mut i: usize = from;
    while i < cs.len()
        invariant
            from <= i <= cs@.len(),
            from as int == last_index_of(path@, '.', path@.len() as int) + 1,
            cs@ == path@,
            out@ == cs@.subrange(from as int, i as int),
        decreases cs@.len() - i,
    {
        push_char(&mut out, cs[i]);
        i = i + 1;
        assert(out@ =~= cs@.subrange(from as int, i as int));
    }
    out
}

/// Whether a file of extension `ext` is served as raw bytes.
pub fn is_binary_extension(ext: &String) -> (r: bool)
    ensures
        r == binary_extension(ext@),
{
    *ext == "ico".to_owned() || *ext == "png".to_owned() || *ext == "webp".to_owned() || *ext
        == "ttf".to_owned() || *ext == "woff2".to_owned() || *ext == "woff".to_owned()
}

/// The file that serves the page `name`.
pub fn html_file_name(name: &String) -> (r: String)
    ensures
        r@ == page_file(name@),
{
    let cs = chars_of(name);
    let mut out = name.clone();
    if find_last(&cs, '.').is_none() {
        let suffix = chars_of(&".html".to_owned());
        let mut i: usize = 0;
        while i < suffix.len()
            invariant
                i <= suffix@.len(),
                suffix@ == ".html"@,
                out@ == name@ + suffix@.subrange(0, i as int),
            decreases suffix@.len() - i,
        {
            push_char(&mut out, suffix[i]);
            i = i + 1;
            assert(out@ =~= name@ + suffix@.subrange(0, i as int));
        }
        assert(suffix@.subrange(0, suffix@.len() as int) == suffix@);
    }
    out
}

/// What the page text of a file that could not be read says.
pub const MISSING_FILE: &'static str = "File not found file error";

/// How a static file is served.
#[derive(Clone, Copy, Debug, PartialEq, Eq, Structural)]
pub enum FileKind {
    /// As raw bytes.
    Binary,
    /// As the text that the svg reader gives back.
    Svg,
    /// As text, where its bytes are UTF-8; else as raw bytes.
    Text,
}

pub open spec fn kind_of(path: Seq<char>) -> FileKind {
    if binary_extension(extension_of(path)) {
        FileKind::Binary
    } else if extension_of(path) == "svg"@ {
        FileKind::Svg
    } else {
        FileKind::Text
    }
}

/// How the file at `path` is served, by its extension.
pub fn file_kind(path: &String) -> (r: FileKind)
    ensures
        r == kind_of(path@),
{
    let ext = file_extension(path);
    if is_binary_extension(&ext) {
        FileKind::Binary
    } else if ext == "svg".to_owned() {
        FileKind::Svg
    } else {
        FileKind::Text
    }
}

/// Whether page text is the text of a file that could not be read.
pub fn is_missing(text: &String) -> (r: bool)
    ensures
        r == (text@ == MISSING_FILE@),
{
    *text == MISSING_FILE.to_owned()
}

/// The mark in the redemption page that stands for the checkpoint id.
pub const STAMP_PLACEHOLDER: &'static str = "%STAMP_ID%";

/// `s` with every occurrence of `pat`, taken from left to right without
/// overlap, replaced by `rep`.
pub open spec fn replace_all(s: Seq<char>, pat: Seq<char>, rep: Seq<char>) -> Seq<char>
    decreases s.len(),
{
    if pat.len() == 0 || s.len() < pat.len() {
        s
    } else if s.subrange(0, pat.len() as int) == pat {
        rep + replace_all(s.skip(pat.len() as int), pat, rep)
    } else {
        seq![s[0]] + replace_all(s.skip(1), pat, rep)
    }
}

fn matches_at(s: &Vec<char>, i: usize, pat: &Vec<char>) -> (r: bool)
    requires
        i + pat@.len() <= s@.len(),
    ensures
        r == (s@.subrange(i as int, i + pat@.len()) == pat@),
{
    let n = s.len();
    let mut j: usize = 0;
    while j < pat.len()
        invariant
            j <= pat@.len(),
            n == s@.len(),
            i + pat@.len() <= s@.len(),
            forall|k: int| 0 <= k < j ==> s@[i + k] == pat@[k],
        decreases pat@.len() - j,
    {
        if s[i + j] != pat[j] {
            assert(s@.subrange(i as int, i + pat@.len())[j as int] != pat@[j as int]);
            return false;
        }
        j = j + 1;
    }
    assert(s@.subrange(i as int, i + pat@.len()) =~= pat@);
    true
}

/// The redemption page: `template` with the checkpoint id in place of each
/// placeholder.
pub fn fill_stamp_id(template: &String, stamp_id: &String) -> (r: String)
    ensures
        r@ == replace_all(template@, STAMP_PLACEHOLDER@, stamp_id@),
{
    let s = chars_of(template);
    let pat = chars_of(&STAMP_PLACEHOLDER.to_owned());
    let rep = chars_of(stamp_id);
    proof {
        reveal_strlit("%STAMP_ID%");
    }
    let ghost whole = replace_all(s@, pat@, rep@);
    let mut out = String::new();
    let mut i: usize = 0;
    assert(s@.skip(0) =~= s@);
    assert(out@ + whole =~= whole);
    while i < s.len()
        invariant
            i <= s@.len(),
            pat@.len() > 0,
            whole == replace_all(s@, pat@, rep@),
            out@ + replace_all(s@.skip(i as int), pat@, rep@) == whole,
        decreases s@.len() - i,
    {
        let ghost t = s@.skip(i as int);
        let ghost before = out@;
        if s.len() - i >= pat.len() && matches_at(&s, i, &pat) {
            assert(t.subrange(0, pat@.len() as int) == s@.subrange(i as int, i + pat@.len()));
            let mut j: usize = 0;
            while j < rep.len()
                invariant
                    j <= rep@.len(),
                    out@ == before + rep@.subrange(0, j as int),
                decreases rep@.len() - j,
            {
                push_char(&mut out, rep[j]);
                j = j + 1;
                assert(out@ =~= before + rep@.subrange(0, j as int));
            }
            assert(rep@.subrange(0, rep@.len() as int) == rep@);
            assert(t.skip(pat@.len() as int) == s@.skip(i + pat@.len()));
            assert(out@ + replace_all(s@.skip(i + pat@.len()), pat@, rep@) =~= before + (rep@
                + replace_all(t.skip(pat@.len() as int), pat@, rep@)));
            i = i + pat.len();
        } else {
            if s.len() - i >= pat.len() {
                assert(t.subrange(0, pat@.len() as int) == s@.subrange(i as int, i + pat@.len()));
            }
            push_char(&mut out, s[i]);
            assert(t.skip(1) == s@.skip(i + 1));
            assert(t[0] == s@[i as int]);
            assert(out@ + replace_all(s@.skip(i + 1), pat@, rep@) =~= before + (seq![t[0]]
                + replace_all(t.skip(1), pat@, rep@)));
            i = i + 1;
        }
    }
    assert(s@.skip(i as int).len() == 0);
    assert(out@ =~= whole);
    out
}

} // verus!
