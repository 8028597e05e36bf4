//! File paths as text.

use vstd::prelude::*;

use crate::text::{chars_of, concat2, concat3, opt_text, string_of, texts, texts_contain};

verus! {

/// Whether a path is absolute.
pub open spec fn absolute_path(path: Seq<char>) -> bool {
    path.len() > 0 && path[0] == '/'
}

/// A path below another. An absolute path stands for itself; otherwise one separator stands
/// between the two, unless the first is empty or ends in one.
pub open spec fn joined(base: Seq<char>, part: Seq<char>) -> Seq<char> {
    if absolute_path(part) {
        part
    } else if base.len() == 0 || base.last() == '/' {
        base + part
    } else {
        base + "/"@ + part
    }
}

/// A path below another.
pub fn join_path(base: &str, part: &str) -> (res: String)
    ensures
        res@ == joined(base@, part@),
{
    let part_len: usize = part.unicode_len();
    if part_len > 0 && part.get_char(0) == '/' {
        return part.to_owned();
    }
    let base_len: usize = base.unicode_len();
    if base_len == 0 || base.get_char(base_len - 1) == '/' {
        concat2(base, part)
    } else {
        concat3(base, "/", part)
    }
}

/// Whether every character of a name is an ASCII letter or digit, `-`, `_` or `.`.
pub open spec fn plain_name(name: Seq<char>) -> bool {
    forall|i: int| 0 <= i < name.len() ==> plain_char(#[trigger] name[i])
}

/// Whether a character may stand in a plain name.
pub open spec fn plain_char(c: char) -> bool {
    crate::text::ascii_alphanumeric(c) || c == '-' || c == '_' || c == '.'
}

/// Whether every character of a name is an ASCII letter or digit, `-`, `_` or `.`.
pub fn is_plain_name(name: &str) -> (res: bool)
    ensures
        res == plain_name(name@),
{
    let chars = chars_of(name);
    let mut i: usize = 0;
    while i < chars.len()
        invariant
            i <= chars@.len(),
            chars@ == name@,
            forall|j: int| 0 <= j < i ==> plain_char(#[trigger] name@[j]),
        decreases chars@.len() - i,
    {
        if !is_plain_char(chars[i]) {
            assert(!plain_char(name@[i as int]));
            return false;
        }
        i += 1;
    }
    true
}

/// Whether a character may stand in a plain name.
pub fn is_plain_char(c: char) -> (res: bool)
    ensures
        res == plain_char(c),
{
    crate::text::is_ascii_alphanumeric(c) || c == '-' || c == '_' || c == '.'
}

/// A plain name is one component: it holds no separator, so joining it to a base that is not
/// empty leaves the base in front.
pub proof fn law_plain_name_stays_below(base: Seq<char>, name: Seq<char>)
    requires
        plain_name(name),
        base.len() > 0,
        base.last() != '/',
    ensures
        joined(base, name) == base + "/"@ + name,
        forall|i: int| 0 <= i < name.len() ==> #[trigger] name[i] != '/',
{
    if name.len() > 0 {
        assert(plain_char(name[0]));
    }
    assert forall|i: int| 0 <= i < name.len() implies #[trigger] name[i] != '/' by {
        assert(plain_char(name[i]));
    }
}

/// The file name of a path (`Path::file_name`): its last component, unless that is `..`.
pub uninterp spec fn file_name_of(path: Seq<char>) -> Option<Seq<char>>;

/// The path without its final component (`Path::parent`).
pub uninterp spec fn parent_of(path: Seq<char>) -> Option<Seq<char>>;

/// `Path::parent` on a text: the result depends on the text alone, and it is shorter than the
/// path, since the final component is left off.
#[verifier::external_body]
fn std_parent(path: &str) -> (res: Option<String>)
    ensures
        opt_text(res) == parent_of(path@),
        res matches Some(up) ==> up@.len() < path@.len(),
{
    std::path::Path::new(path).parent().and_then(|up| up.to_str()).map(str::to_owned)
}

/// The path without its final component, if it has one.
pub fn parent(path: &str) -> (res: Option<String>)
    ensures
        opt_text(res) == parent_of(path@),
        res matches Some(up) ==> up@.len() < path@.len(),
{
    std_parent(path)
}

/// `Path::file_name` on a text: the result depends on the text alone.
#[verifier::external_body]
fn std_file_name(path: &str) -> (res: Option<String>)
    ensures
        opt_text(res) == file_name_of(path@),
{
    std::path::Path::new(path).file_name().and_then(|name| name.to_str()).map(str::to_owned)
}

/// The file name of a path.
pub fn file_name(path: &str) -> (res: Option<String>)
    ensures
        opt_text(res) == file_name_of(path@),
{
    std_file_name(path)
}

/// The index of the last dot of a name, or -1.
pub open spec fn last_dot(name: Seq<char>) -> int
    decreases name.len(),
{
    if name.len() == 0 {
        -1
    } else if name.last() == '.' {
        name.len() - 1
    } else {
        last_dot(name.drop_last())
    }
}

/// The index behind the last dot of a name, or 0.
pub fn after_last_dot(name: &Vec<char>) -> (res: usize)
    ensures
        res == last_dot(name@) + 1,
        res <= name@.len(),
{
    let mut n: usize = name.len();
    assert(name@.take(n as int) =~= name@);
    while n > 0 && name[n - 1] != '.'
        invariant
            n <= name@.len(),
            last_dot(name@) == last_dot(name@.take(n as int)),
        decreases n,
    {
        assert(name@.take(n as int).drop_last() =~= name@.take(n - 1));
        n -= 1;
    }
    if n > 0 {
        assert(name@.take(n as int).last() == '.');
    }
    n
}

/// The extension of a path: what stands behind the last dot of its file name, unless the name
/// has no dot or only the one that it begins with.
pub open spec fn extension_of(path: Seq<char>) -> Option<Seq<char>> {
    match file_name_of(path) {
        Some(name) => if last_dot(name) > 0 {
            Some(name.skip(last_dot(name) + 1))
        } else {
            None
        },
        None => None,
    }
}

/// The extension of a path.
pub fn extension(path: &str) -> (res: Option<String>)
    ensures
        opt_text(res) == extension_of(path@),
{
    match file_name(path) {
        Some(name) => {
            let chars = chars_of(name.as_str());
            let n: usize = after_last_dot(&chars);
            if n > 1 {
                let end: usize = chars.len();
                let text = string_of(&chars, n, end);
                assert(text@ =~= name@.skip(n as int));
                Some(text)
            } else {
                None
            }
        },
        None => None,
    }
}

/// The paths that are known to exist.
#[derive(Debug)]
pub struct PathFacts {
    pub existing: Vec<String>,
}

impl PathFacts {
    /// Whether a path is known to exist.
    pub open spec fn has(&self, path: Seq<char>) -> bool {
        texts(self.existing@).contains(path)
    }

    /// Whether a path is known to exist.
    pub fn knows(&self, path: &str) -> (res: bool)
        ensures
            res == self.has(path@),
    {
        texts_contain(&self.existing, path)
    }
}

/// A name is plain exactly when it is made of letters from A to Z and a to z, digits, dashes,
/// underscores and dots.
pub proof fn law_plain_names(name: Seq<char>)
    ensures
        plain_name(name) <==> forall|i: int|
            0 <= i < name.len() ==> 'a' <= #[trigger] name[i] <= 'z' || 'A' <= name[i] <= 'Z' || '0'
                <= name[i] <= '9' || name[i] == '-' || name[i] == '_' || name[i] == '.',
{
    if plain_name(name) {
        assert forall|i: int| 0 <= i < name.len() implies 'a' <= #[trigger] name[i] <= 'z' || 'A'
            <= name[i] <= 'Z' || '0' <= name[i] <= '9' || name[i] == '-' || name[i] == '_'
            || name[i] == '.' by {
            assert(plain_char(name[i]));
        }
    }
}

/// A part is put below a path with one slash between them; below a path that ends in one, or the
/// empty one, it follows at once; a part that starts with a slash stands for itself.
pub proof fn law_parts_are_put_below(base: Seq<char>, part: Seq<char>)
    ensures
        part.len() > 0 && part[0] == '/' ==> joined(base, part) == part,
        !(part.len() > 0 && part[0] == '/') ==> {
            &&& base.len() == 0 ==> joined(base, part) == part
            &&& base.len() > 0 && base[base.len() - 1] == '/' ==> joined(base, part) == base + part
            &&& base.len() > 0 && base[base.len() - 1] != '/' ==> joined(base, part) == base.push(
                '/',
            ) + part
        },
{
    reveal_strlit("/");
    assert("/"@ =~= seq!['/']);
    assert(base + "/"@ =~= base.push('/'));
    if base.len() == 0 {
        assert(base + part =~= part);
    }
}

proof fn lemma_last_dot(name: Seq<char>)
    ensures
        -1 <= last_dot(name) < name.len(),
        last_dot(name) >= 0 ==> name[last_dot(name)] == '.',
        forall|i: int| last_dot(name) < i < name.len() ==> #[trigger] name[i] != '.',
    decreases name.len(),
{
    if name.len() > 0 && name.last() != '.' {
        lemma_last_dot(name.drop_last());
        assert forall|i: int| last_dot(name) < i < name.len() implies #[trigger] name[i] != '.' by {
            if i < name.len() - 1 {
                assert(name.drop_last()[i] != '.');
            }
        }
    }
}

/// The extension of a file is what follows the last dot of its name, unless nothing comes before
/// that dot; a name without a dot has none.
pub proof fn law_extension_follows_the_last_dot(path: Seq<char>, stem: Seq<char>, ext: Seq<char>)
    requires
        forall|i: int| 0 <= i < ext.len() ==> #[trigger] ext[i] != '.',
    ensures
        file_name_of(path) == Some(stem.push('.') + ext) && stem.len() > 0 ==> extension_of(path)
            == Some(ext),
        file_name_of(path) == Some(stem.push('.') + ext) && stem.len() == 0 ==> extension_of(path)
            is None,
        file_name_of(path) == Some(ext) ==> extension_of(path) is None,
        file_name_of(path) is None ==> extension_of(path) is None,
{
    let name = stem.push('.') + ext;
    lemma_last_dot(name);
    lemma_last_dot(ext);
    assert(name[stem.len() as int] == '.');
    assert(last_dot(name) == stem.len()) by {
        if last_dot(name) > stem.len() {
            assert(name[last_dot(name)] == ext[last_dot(name) - stem.len() - 1]);
        }
    }
    assert(name.skip(stem.len() as int + 1) =~= ext);
}

} // verus!
