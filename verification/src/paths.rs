//! The last part of a path and what it is made of. Parts are separated by `/`.
use vstd::prelude::*;
use vstd::string::StrSliceExecFns;

verus! {

/// The place of the last `c` among the first `k` characters, or -1.
pub open spec fn last_place(text: Seq<char>, c: char, k: int) -> int
    decreases k,
{
    if k <= 0 {
        -1
    } else if text[k - 1] == c {
        k - 1
    } else {
        last_place(text, c, k - 1)
    }
}

proof fn lemma_last_place(text: Seq<char>, c: char, k: int)
    requires
        0 <= k <= text.len(),
    ensures
        -1 <= last_place(text, c, k) < k || (k == 0 && last_place(text, c, k) == -1),
        last_place(text, c, k) >= 0 ==> text[last_place(text, c, k)] == c,
        forall|i: int| last_place(text, c, k) < i < k ==> text[i] != c,
    decreases k,
{
    if k > 0 && text[k - 1] != c {
        lemma_last_place(text, c, k - 1);
    }
}

/// One past the place of the last `c`, or 0.
fn after_last(text: &str, c: char) -> (r: usize)
    ensures
        r == last_place(text@, c, text@.len() as int) + 1,
        r <= text@.len(),
{
    let mut k: usize = text.unicode_len();
    while k > 0 && text.get_char(k - 1) != c
        invariant
            k <= text@.len(),
            last_place(text@, c, text@.len() as int) == last_place(text@, c, k as int),
        decreases k,
    {
        k = k - 1;
    }
    k
}

/// How long a path is without the separators and `.` parts at its end.
pub open spec fn trimmed_len(path: Seq<char>, n: int) -> int
    decreases n,
{
    if n <= 0 {
        0
    } else if path[n - 1] == '/' {
        trimmed_len(path, n - 1)
    } else if n >= 2 && path[n - 1] == '.' && path[n - 2] == '/' {
        trimmed_len(path, n - 2)
    } else {
        n
    }
}

/// The last part of a path; none when it is empty, or a step to the same or the parent directory.
pub open spec fn file_name_of(path: Seq<char>) -> Option<Seq<char>> {
    let trimmed = path.take(trimmed_len(path, path.len() as int));
    let part = trimmed.skip(last_place(trimmed, '/', trimmed.len() as int) + 1);
    if part.len() == 0 || part == "."@ || part == ".."@ {
        None
    } else {
        Some(part)
    }
}

pub fn file_name(path: &str) -> (r: Option<String>)
    ensures
        match r {
            Some(name) => file_name_of(path@) == Some(name@),
            None => file_name_of(path@) is None,
        },
{
    let mut n: usize = path.unicode_len();
    loop
        invariant_except_break
            n <= path@.len(),
            trimmed_len(path@, path@.len() as int) == trimmed_len(path@, n as int),
        ensures
            n <= path@.len(),
            n == trimmed_len(path@, path@.len() as int),
        decreases n,
    {
        if n == 0 {
            break;
        }
        if path.get_char(n - 1) == '/' {
            n = n - 1;
        } else if n >= 2 && path.get_char(n - 1) == '.' && path.get_char(n - 2) == '/' {
            n = n - 2;
        } else {
            break;
        }
    }
    let trimmed = path.substring_char(0, n);
    assert(trimmed@ =~= path@.take(n as int));
    let start: usize = after_last(trimmed, '/');
    let part = trimmed.substring_char(start, n);
    assert(part@ =~= trimmed@.skip(start as int));
    if part.unicode_len() == 0 || crate::text_map::same_text(part, ".") || crate::text_map::same_text(
        part,
        "..",
    ) {
        None
    } else {
        Some(part.to_owned())
    }
}

/// A file name up to its last dot; a dot in front does not count.
pub open spec fn stem_of(name: Seq<char>) -> Seq<char> {
    let dot = last_place(name, '.', name.len() as int);
    if dot <= 0 {
        name
    } else {
        name.take(dot)
    }
}

pub fn stem(name: &str) -> (r: String)
    ensures
        r@ == stem_of(name@),
{
    let after: usize = after_last(name, '.');
    if after <= 1 {
        name.to_owned()
    } else {
        let cut = name.substring_char(0, after - 1);
        assert(cut@ =~= name@.take(after - 1));
        cut.to_owned()
    }
}

/// What follows the last dot of a file name; a dot in front does not count.
pub open spec fn extension_of(name: Seq<char>) -> Option<Seq<char>> {
    let dot = last_place(name, '.', name.len() as int);
    if dot <= 0 {
        None
    } else {
        Some(name.skip(dot + 1))
    }
}

pub fn extension(name: &str) -> (r: Option<String>)
    ensures
        match r {
            Some(ext) => extension_of(name@) == Some(ext@),
            None => extension_of(name@) is None,
        },
{
    let after: usize = after_last(name, '.');
    if after <= 1 {
        None
    } else {
        let n: usize = name.unicode_len();
        let ext = name.substring_char(after, n);
        assert(ext@ =~= name@.skip(after as int));
        Some(ext.to_owned())
    }
}

/// A file name with an extension is its stem, a dot and the extension.
pub proof fn law_stem_and_extension_make_the_name(name: Seq<char>)
    ensures
        match extension_of(name) {
            Some(ext) => name == stem_of(name).push('.') + ext,
            None => name == stem_of(name),
        },
{
    lemma_last_place(name, '.', name.len() as int);
    if extension_of(name) is Some {
        assert(name =~= stem_of(name).push('.') + extension_of(name)->0);
    }
}

} // verus!
