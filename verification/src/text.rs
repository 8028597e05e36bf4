//! Text utilities: trimming, word splitting, searching, comparing and number formatting.
//!
//! All contracts speak of strings as sequences of characters.

use vstd::prelude::*;
use vstd::string::*;
use vstd::utf8::{encode_utf8, valid_utf8};

verus! {

/// `String::push` appends one character.
pub assume_specification[ String::push ](s: &mut String, c: char)
    ensures
        final(s)@ == old(s)@.push(c),
;

/// The result of `str::to_lowercase`, the Unicode lowercase mapping of a whole string.
pub uninterp spec fn unicode_lowercase(text: Seq<char>) -> Seq<char>;

/// `str::to_lowercase`: the result depends on the text alone, and ASCII text is mapped
/// letter by letter. What the Unicode tables say of other characters is left to the name
/// `unicode_lowercase`.
#[verifier::external_body]
fn std_to_lowercase(text: &str) -> (res: String)
    ensures
        res@ == unicode_lowercase(text@),
        all_ascii(text@) ==> res@ == ascii_lower(text@),
{
    text.to_lowercase()
}

/// The result of formatting a string with `{:?}`.
pub uninterp spec fn debug_quoted(text: Seq<char>) -> Seq<char>;

/// `format!` with `{:?}` on a string: quotes it and escapes what Rust escapes.
#[verifier::external_body]
fn std_debug_quote(text: &str) -> (res: String)
    ensures
        res@ == debug_quoted(text@),
{
    format!("{text:?}")
}

/// Text in the form `{:?}` prints it.
pub fn debug_quote(text: &str) -> (res: String)
    ensures
        res@ == debug_quoted(text@),
{
    std_debug_quote(text)
}

/// Whether every character is ASCII.
pub open spec fn all_ascii(s: Seq<char>) -> bool {
    forall|i: int| 0 <= i < s.len() ==> (#[trigger] s[i] as int) < 128
}

/// The lowercase of an ASCII letter; any other character is unchanged.
pub open spec fn ascii_lower_char(c: char) -> char {
    if 65 <= c as int <= 90 {
        (c as int + 32) as char
    } else {
        c
    }
}

/// `ascii_lower_char` on every character.
pub open spec fn ascii_lower(s: Seq<char>) -> Seq<char> {
    Seq::new(s.len(), |i: int| ascii_lower_char(s[i]))
}

/// Characters with the Unicode `White_Space` property.
pub open spec fn whitespace(c: char) -> bool {
    let n = c as int;
    ||| 9 <= n <= 13
    ||| n == 32
    ||| n == 0x85
    ||| n == 0xa0
    ||| n == 0x1680
    ||| 0x2000 <= n <= 0x200a
    ||| n == 0x2028
    ||| n == 0x2029
    ||| n == 0x202f
    ||| n == 0x205f
    ||| n == 0x3000
}

/// The code point of a character.
pub fn code_point(c: char) -> (res: u32)
    ensures
        res as int == c as int,
{
    c as u32
}

/// Whether a character is white space.
pub fn is_whitespace(c: char) -> (res: bool)
    ensures
        res == whitespace(c),
{
    let n: u32 = c as u32;
    (9 <= n && n <= 13) || n == 32 || n == 0x85 || n == 0xa0 || n == 0x1680 || (0x2000 <= n && n
        <= 0x200a) || n == 0x2028 || n == 0x2029 || n == 0x202f || n == 0x205f || n == 0x3000
}

/// ASCII letters and digits.
pub open spec fn ascii_alphanumeric(c: char) -> bool {
    let n = c as int;
    48 <= n <= 57 || 65 <= n <= 90 || 97 <= n <= 122
}

/// Whether a character is an ASCII letter or digit.
pub fn is_ascii_alphanumeric(c: char) -> (res: bool)
    ensures
        res == ascii_alphanumeric(c),
{
    let n: u32 = c as u32;
    (48 <= n && n <= 57) || (65 <= n && n <= 90) || (97 <= n && n <= 122)
}

/// The characters of a string.
pub fn chars_of(text: &str) -> (res: Vec<char>)
    ensures
        res@ == text@,
{
    let mut out: Vec<char> = Vec::new();
    let n: usize = text.unicode_len();
    for c in it: text.chars()
        invariant
            it.seq() == text@,
            out@ == text@.take(it.index()),
    {
        out.push(c);
    }
    out
}

/// The string of the characters in positions `from..to`.
pub fn string_of(chars: &Vec<char>, from: usize, to: usize) -> (res: String)
    requires
        from <= to <= chars@.len(),
    ensures
        res@ == chars@.subrange(from as int, to as int),
{
    let mut out = String::new();
    let mut i: usize = from;
    while i < to
        invariant
            from <= i <= to <= chars@.len(),
            out@ == chars@.subrange(from as int, i as int),
        decreases to - i,
    {
        out.push(chars[i]);
        i += 1;
        assert(chars@.subrange(from as int, i as int) =~= chars@.subrange(
            from as int,
            i - 1,
        ).push(chars@[i - 1]));
    }
    out
}

/// Whether two strings hold the same characters.
pub fn str_eq(a: &str, b: &str) -> (res: bool)
    ensures
        res == (a@ == b@),
{
    a.to_owned() == b.to_owned()
}

/// The first string followed by the second.
pub fn concat2(a: &str, b: &str) -> (res: String)
    ensures
        res@ == a@ + b@,
{
    let mut out = a.to_owned();
    out.append(b);
    out
}

/// The three strings in a row.
pub fn concat3(a: &str, b: &str, c: &str) -> (res: String)
    ensures
        res@ == a@ + b@ + c@,
{
    let mut out = a.to_owned();
    out.append(b);
    out.append(c);
    out
}

/// Without its leading white space.
pub open spec fn trim_start_spec(s: Seq<char>) -> Seq<char>
    decreases s.len(),
{
    if s.len() > 0 && whitespace(s.first()) {
        trim_start_spec(s.drop_first())
    } else {
        s
    }
}

/// Without its trailing white space.
pub open spec fn trim_end_spec(s: Seq<char>) -> Seq<char>
    decreases s.len(),
{
    if s.len() > 0 && whitespace(s.last()) {
        trim_end_spec(s.drop_last())
    } else {
        s
    }
}

/// Without its leading and trailing white space.
pub open spec fn trimmed(s: Seq<char>) -> Seq<char> {
    trim_end_spec(trim_start_spec(s))
}

/// Taking white space off the front leaves none there.
pub proof fn lemma_trim_start(s: Seq<char>)
    ensures
        trim_start_spec(s).len() > 0 ==> !whitespace(trim_start_spec(s).first()),
    decreases s.len(),
{
    if s.len() > 0 && whitespace(s.first()) {
        lemma_trim_start(s.drop_first());
    }
}

/// Taking white space off the end leaves none there, and the front as it is.
pub proof fn lemma_trim_end(s: Seq<char>)
    ensures
        trim_end_spec(s).len() > 0 ==> !whitespace(trim_end_spec(s).last())
            && trim_end_spec(s).first() == s.first(),
        trim_end_spec(s).len() <= s.len(),
    decreases s.len(),
{
    if s.len() > 0 && whitespace(s.last()) {
        lemma_trim_end(s.drop_last());
    }
}

/// Trimmed text stays as it is when it is trimmed again.
pub proof fn lemma_trimmed_twice(s: Seq<char>)
    ensures
        trimmed(trimmed(s)) == trimmed(s),
{
    lemma_trim_start(s);
    lemma_trim_end(trim_start_spec(s));
}

/// Without its leading and trailing white space.
pub fn trim(text: &str) -> (res: String)
    ensures
        res@ == trimmed(text@),
{
    let chars = chars_of(text);
    let mut from: usize = 0;
    assert(chars@ =~= chars@.skip(0));
    while from < chars.len() && is_whitespace(chars[from])
        invariant
            from <= chars@.len(),
            trim_start_spec(chars@) == trim_start_spec(chars@.skip(from as int)),
        decreases chars@.len() - from,
    {
        assert(chars@.skip(from as int).drop_first() =~= chars@.skip(from + 1));
        from += 1;
    }
    let mut to: usize = chars.len();
    let ghost start = chars@.skip(from as int);
    assert(start =~= chars@.subrange(from as int, to as int));
    while from < to && is_whitespace(chars[to - 1])
        invariant
            from <= to <= chars@.len(),
            trim_end_spec(start) == trim_end_spec(chars@.subrange(from as int, to as int)),
        decreases to,
    {
        assert(chars@.subrange(from as int, to as int).drop_last() =~= chars@.subrange(
            from as int,
            to - 1,
        ));
        to -= 1;
    }
    string_of(&chars, from, to)
}

/// Without its trailing white space.
pub fn trim_end(text: &str) -> (res: String)
    ensures
        res@ == trim_end_spec(text@),
{
    let chars = chars_of(text);
    let mut to: usize = chars.len();
    assert(chars@ =~= chars@.subrange(0, to as int));
    while 0 < to && is_whitespace(chars[to - 1])
        invariant
            to <= chars@.len(),
            trim_end_spec(chars@) == trim_end_spec(chars@.subrange(0, to as int)),
        decreases to,
    {
        assert(chars@.subrange(0, to as int).drop_last() =~= chars@.subrange(0, to - 1));
        to -= 1;
    }
    string_of(&chars, 0, to)
}

/// Without its leading `mark`s.
pub open spec fn strip_leading(s: Seq<char>, mark: char) -> Seq<char>
    decreases s.len(),
{
    if s.len() > 0 && s.first() == mark {
        strip_leading(s.drop_first(), mark)
    } else {
        s
    }
}

/// Without its leading `mark`s.
pub fn trim_start_char(text: &str, mark: char) -> (res: String)
    ensures
        res@ == strip_leading(text@, mark),
{
    let chars = chars_of(text);
    let mut from: usize = 0;
    assert(chars@ =~= chars@.skip(0));
    while from < chars.len() && chars[from] == mark
        invariant
            from <= chars@.len(),
            strip_leading(chars@, mark) == strip_leading(chars@.skip(from as int), mark),
        decreases chars@.len() - from,
    {
        assert(chars@.skip(from as int).drop_first() =~= chars@.skip(from + 1));
        from += 1;
    }
    assert(chars@.skip(from as int) =~= chars@.subrange(from as int, chars@.len() as int));
    string_of(&chars, from, chars.len())
}

/// Without its trailing `mark`s.
pub open spec fn strip_trailing(s: Seq<char>, mark: char) -> Seq<char>
    decreases s.len(),
{
    if s.len() > 0 && s.last() == mark {
        strip_trailing(s.drop_last(), mark)
    } else {
        s
    }
}

/// Without its trailing `mark`s.
pub fn trim_end_char(text: &str, mark: char) -> (res: String)
    ensures
        res@ == strip_trailing(text@, mark),
{
    let chars = chars_of(text);
    let mut to: usize = chars.len();
    assert(chars@ =~= chars@.subrange(0, to as int));
    while 0 < to && chars[to - 1] == mark
        invariant
            to <= chars@.len(),
            strip_trailing(chars@, mark) == strip_trailing(chars@.subrange(0, to as int), mark),
        decreases to,
    {
        assert(chars@.subrange(0, to as int).drop_last() =~= chars@.subrange(0, to - 1));
        to -= 1;
    }
    string_of(&chars, 0, to)
}

/// The maximal runs of characters that are not white space, in order.
pub open spec fn words(s: Seq<char>) -> Seq<Seq<char>>
    decreases s.len(),
{
    if s.len() == 0 {
        Seq::empty()
    } else {
        let before = words(s.drop_last());
        if whitespace(s.last()) {
            before
        } else if s.len() == 1 || whitespace(s[s.len() - 2]) {
            before.push(seq![s.last()])
        } else {
            before.drop_last().push(before.last().push(s.last()))
        }
    }
}

/// The words with one space between neighbours.
pub open spec fn join_words(ws: Seq<Seq<char>>) -> Seq<char>
    decreases ws.len(),
{
    if ws.len() == 0 {
        Seq::empty()
    } else if ws.len() == 1 {
        ws[0]
    } else {
        join_words(ws.drop_last()).push(' ') + ws.last()
    }
}

/// Lowercase text in which every run of white space is one space and none leads or trails.
pub open spec fn normalized_text(s: Seq<char>) -> Seq<char> {
    unicode_lowercase(join_words(words(s)))
}

/// A text whose last character is not white space has a last word.
proof fn lemma_words_nonempty(s: Seq<char>)
    requires
        s.len() > 0,
        !whitespace(s.last()),
    ensures
        words(s).len() > 0,
{
}

/// Collapses white space: the words of the text with one space between neighbours.
pub fn collapse_whitespace(text: &str) -> (res: String)
    ensures
        res@ == join_words(words(text@)),
{
    let chars = chars_of(text);
    let mut out = String::new();
    let mut i: usize = 0;
    let mut in_word = false;
    let mut any = false;
    while i < chars.len()
        invariant
            i <= chars@.len(),
            out@ == join_words(words(chars@.take(i as int))),
            in_word == (i > 0 && !whitespace(chars@[i - 1])),
            any == (words(chars@.take(i as int)).len() > 0),
        decreases chars@.len() - i,
    {
        let c = chars[i];
        let ghost before = words(chars@.take(i as int));
        let ghost next = chars@.take(i + 1);
        proof {
            assert(next.drop_last() =~= chars@.take(i as int));
            if i > 0 && !whitespace(chars@[i - 1]) {
                lemma_words_nonempty(chars@.take(i as int));
            }
        }
        if is_whitespace(c) {
            in_word = false;
        } else {
            if in_word {
                out.push(c);
                proof {
                    let after = words(next);
                    assert(after =~= before.drop_last().push(before.last().push(c)));
                    assert(after.drop_last() =~= before.drop_last());
                    if before.len() == 1 {
                        assert(join_words(after) =~= join_words(before).push(c));
                    } else {
                        assert(join_words(after) =~= join_words(before).push(c));
                    }
                }
            } else {
                if any {
                    out.push(' ');
                }
                out.push(c);
                proof {
                    let after = words(next);
                    assert(after =~= before.push(seq![c]));
                    assert(after.drop_last() =~= before);
                    assert(join_words(after) =~= if before.len() == 0 {
                        seq![c]
                    } else {
                        join_words(before).push(' ').push(c)
                    });
                }
            }
            in_word = true;
            any = true;
        }
        i += 1;
    }
    assert(chars@.take(i as int) =~= text@);
    out
}

/// The Unicode lowercase of a text.
pub fn to_lowercase(text: &str) -> (res: String)
    ensures
        res@ == unicode_lowercase(text@),
        all_ascii(text@) ==> res@ == ascii_lower(text@),
{
    std_to_lowercase(text)
}

/// Lowercase text in which every run of white space is one space and none leads or trails.
pub fn normalize_text(text: &str) -> (res: String)
    ensures
        res@ == normalized_text(text@),
        all_ascii(join_words(words(text@))) ==> res@ == ascii_lower(join_words(words(text@))),
{
    let collapsed = collapse_whitespace(text);
    std_to_lowercase(collapsed.as_str())
}

/// Whether `needle` stands in `hay` at position `at`.
pub open spec fn occurs_at(hay: Seq<char>, needle: Seq<char>, at: int) -> bool {
    0 <= at && at + needle.len() <= hay.len() && hay.subrange(at, at + needle.len()) == needle
}

/// Whether `needle` stands somewhere in `hay`.
pub open spec fn contains_text(hay: Seq<char>, needle: Seq<char>) -> bool {
    exists|at: int| #[trigger] occurs_at(hay, needle, at)
}

fn matches_at(hay: &Vec<char>, needle: &Vec<char>, at: usize) -> (res: bool)
    requires
        at + needle@.len() <= hay@.len(),
    ensures
        res == occurs_at(hay@, needle@, at as int),
{
    let total: usize = hay.len();
    let mut k: usize = 0;
    while k < needle.len()
        invariant
            k <= needle@.len(),
            at + needle@.len() <= total == hay@.len(),
            forall|j: int| 0 <= j < k ==> hay@[at + j] == needle@[j],
        decreases needle@.len() - k,
    {
        if hay[at + k] != needle[k] {
            proof {
                let sub = hay@.subrange(at as int, at + needle@.len());
                assert(sub[k as int] == hay@[at + k]);
            }
            return false;
        }
        k += 1;
    }
    assert(hay@.subrange(at as int, at + needle@.len()) =~= needle@);
    true
}

/// Whether `needle` stands somewhere in `hay`.
pub fn contains(hay: &str, needle: &str) -> (res: bool)
    ensures
        res == contains_text(hay@, needle@),
{
    let h = chars_of(hay);
    let n = chars_of(needle);
    if n.len() > h.len() {
        return false;
    }
    let last: usize = h.len() - n.len();
    let mut at: usize = 0;
    while at <= last
        invariant
            last == h@.len() - n@.len(),
            at <= last + 1,
            h@ == hay@,
            n@ == needle@,
            last <= h@.len() <= usize::MAX,
            forall|j: int| 0 <= j < at ==> !occurs_at(h@, n@, j),
        decreases last + 1 - at,
    {
        if matches_at(&h, &n, at) {
            return true;
        }
        if at == last {
            assert forall|j: int| !occurs_at(h@, n@, j) by {}
            return false;
        }
        at += 1;
    }
    false
}

/// Whether `at` is the first position at which `needle` stands in `hay`.
pub open spec fn first_occurrence(hay: Seq<char>, needle: Seq<char>, at: int) -> bool {
    occurs_at(hay, needle, at) && forall|j: int| 0 <= j < at ==> !#[trigger] occurs_at(
        hay,
        needle,
        j,
    )
}

/// The first position at which `needle` stands in `hay`.
pub fn find(hay: &str, needle: &str) -> (res: Option<usize>)
    ensures
        match res {
            Some(at) => first_occurrence(hay@, needle@, at as int),
            None => !contains_text(hay@, needle@),
        },
{
    let h = chars_of(hay);
    let n = chars_of(needle);
    if n.len() > h.len() {
        return None;
    }
    let last: usize = h.len() - n.len();
    let mut at: usize = 0;
    while at < last
        invariant
            last == h@.len() - n@.len(),
            at <= last,
            h@ == hay@,
            n@ == needle@,
            forall|j: int| 0 <= j < at ==> !#[trigger] occurs_at(h@, n@, j),
        decreases last - at,
    {
        if matches_at(&h, &n, at) {
            return Some(at);
        }
        at += 1;
    }
    if matches_at(&h, &n, at) {
        return Some(at);
    }
    assert forall|j: int| !#[trigger] occurs_at(h@, n@, j) by {}
    None
}

/// Whether `text` begins with `prefix`.
pub open spec fn starts_with_text(text: Seq<char>, prefix: Seq<char>) -> bool {
    occurs_at(text, prefix, 0)
}

/// Whether `text` begins with `prefix`.
pub fn starts_with(text: &str, prefix: &str) -> (res: bool)
    ensures
        res == starts_with_text(text@, prefix@),
{
    let t = chars_of(text);
    let p = chars_of(prefix);
    p.len() <= t.len() && matches_at(&t, &p, 0)
}

/// Whether `text` ends with `suffix`.
pub open spec fn ends_with_text(text: Seq<char>, suffix: Seq<char>) -> bool {
    occurs_at(text, suffix, text.len() - suffix.len())
}

/// Whether `text` ends with `suffix`.
pub fn ends_with(text: &str, suffix: &str) -> (res: bool)
    ensures
        res == ends_with_text(text@, suffix@),
{
    let t = chars_of(text);
    let p = chars_of(suffix);
    p.len() <= t.len() && matches_at(&t, &p, t.len() - p.len())
}

/// Equality that ignores the case of ASCII letters.
pub open spec fn same_ignoring_case(a: Seq<char>, b: Seq<char>) -> bool {
    ascii_lower(a) == ascii_lower(b)
}

/// The lowercase of an ASCII letter; any other character is unchanged.
pub fn lower_ascii_char(c: char) -> (res: char)
    ensures
        res == ascii_lower_char(c),
{
    let n: u32 = c as u32;
    if 65 <= n && n <= 90 {
        let low: u8 = n as u8 + 32;
        low as char
    } else {
        c
    }
}

/// Equality that ignores the case of ASCII letters.
pub fn eq_ignore_ascii_case(a: &str, b: &str) -> (res: bool)
    ensures
        res == same_ignoring_case(a@, b@),
{
    let x = chars_of(a);
    let y = chars_of(b);
    if x.len() != y.len() {
        assert(ascii_lower(a@).len() != ascii_lower(b@).len());
        return false;
    }
    let mut i: usize = 0;
    while i < x.len()
        invariant
            x@ == a@,
            y@ == b@,
            i <= x@.len(),
            x@.len() == y@.len(),
            forall|j: int| 0 <= j < i ==> ascii_lower_char(x@[j]) == ascii_lower_char(y@[j]),
        decreases x@.len() - i,
    {
        if lower_ascii_char(x[i]) != lower_ascii_char(y[i]) {
            proof {
                assert(ascii_lower(a@)[i as int] != ascii_lower(b@)[i as int]);
            }
            return false;
        }
        i += 1;
    }
    assert(ascii_lower(a@) =~= ascii_lower(b@));
    true
}

/// Lexicographic order by code point: `a` comes strictly before `b`.
pub open spec fn text_less(a: Seq<char>, b: Seq<char>) -> bool
    decreases a.len(),
{
    if b.len() == 0 {
        false
    } else if a.len() == 0 {
        true
    } else if a[0] == b[0] {
        text_less(a.drop_first(), b.drop_first())
    } else {
        (a[0] as int) < (b[0] as int)
    }
}

/// Whether `a` comes strictly before `b` by code points.
pub fn str_less(a: &str, b: &str) -> (res: bool)
    ensures
        res == text_less(a@, b@),
{
    let x = chars_of(a);
    let y = chars_of(b);
    let mut i: usize = 0;
    assert(x@ =~= x@.skip(0));
    assert(y@ =~= y@.skip(0));
    while i < x.len() && i < y.len()
        invariant
            x@ == a@,
            y@ == b@,
            i <= x@.len(),
            i <= y@.len(),
            text_less(a@, b@) == text_less(x@.skip(i as int), y@.skip(i as int)),
        decreases x@.len() - i,
    {
        if x[i] != y[i] {
            return code_point(x[i]) < code_point(y[i]);
        }
        assert(x@.skip(i as int).drop_first() =~= x@.skip(i + 1));
        assert(y@.skip(i as int).drop_first() =~= y@.skip(i + 1));
        i += 1;
    }
    i < y.len()
}

/// No text comes before itself.
pub proof fn lemma_text_less_irreflexive(a: Seq<char>)
    ensures
        !text_less(a, a),
    decreases a.len(),
{
    if a.len() > 0 {
        lemma_text_less_irreflexive(a.drop_first());
    }
}

/// Of two different texts one comes first.
pub proof fn lemma_text_less_total(a: Seq<char>, b: Seq<char>)
    ensures
        text_less(a, b) || text_less(b, a) || a == b,
    decreases a.len(),
{
    if a.len() > 0 && b.len() > 0 {
        if a[0] == b[0] {
            lemma_text_less_total(a.drop_first(), b.drop_first());
            if a.drop_first() == b.drop_first() {
                assert(a =~= seq![a[0]] + a.drop_first());
                assert(b =~= seq![b[0]] + b.drop_first());
            }
        }
    } else if a.len() == 0 && b.len() == 0 {
        assert(a =~= b);
    }
}

/// The order is transitive.
pub proof fn lemma_text_less_transitive(a: Seq<char>, b: Seq<char>, c: Seq<char>)
    requires
        text_less(a, b),
        text_less(b, c),
    ensures
        text_less(a, c),
    decreases a.len(),
{
    if a.len() > 0 && b.len() > 0 && c.len() > 0 {
        if a[0] == b[0] && b[0] == c[0] {
            lemma_text_less_transitive(a.drop_first(), b.drop_first(), c.drop_first());
        }
    }
}

/// Two texts never come before each other.
pub proof fn lemma_text_less_asymmetric(a: Seq<char>, b: Seq<char>)
    requires
        text_less(a, b),
    ensures
        !text_less(b, a),
{
    if text_less(b, a) {
        lemma_text_less_transitive(a, b, a);
        lemma_text_less_irreflexive(a);
    }
}

/// The decimal digits of a number, without leading zeros.
pub open spec fn decimal_text(n: nat) -> Seq<char>
    decreases n,
{
    let digit = (48 + n % 10) as char;
    if n < 10 {
        seq![digit]
    } else {
        decimal_text(n / 10).push(digit)
    }
}

/// The decimal digits of a number, without leading zeros.
pub fn decimal(n: u64) -> (res: String)
    ensures
        res@ == decimal_text(n as nat),
    decreases n,
{
    let digit: u8 = 48 + (n % 10) as u8;
    if n < 10 {
        let mut out = String::new();
        out.push(digit as char);
        assert(out@ =~= seq![digit as char]);
        out
    } else {
        let mut out = decimal(n / 10);
        out.push(digit as char);
        out
    }
}

/// The characters of an optional string.
pub open spec fn opt_text(text: Option<String>) -> Option<Seq<char>> {
    match text {
        Some(s) => Some(s@),
        None => None,
    }
}

/// The characters of each string of a list.
pub open spec fn texts(list: Seq<String>) -> Seq<Seq<char>> {
    Seq::new(list.len(), |i: int| list[i]@)
}

/// A copy of an optional string.
pub fn clone_opt(text: &Option<String>) -> (res: Option<String>)
    ensures
        opt_text(res) == opt_text(*text),
{
    match text {
        Some(s) => Some(s.clone()),
        None => None,
    }
}

/// An optional string as a borrowed one.
pub fn opt_str(text: &Option<String>) -> (res: Option<&str>)
    ensures
        match res {
            Some(s) => opt_text(*text) == Some(s@),
            None => text is None,
        },
{
    match text {
        Some(s) => Some(s.as_str()),
        None => None,
    }
}

/// Whether two optional strings are equal.
pub fn opt_eq(a: &Option<String>, b: &Option<String>) -> (res: bool)
    ensures
        res == (opt_text(*a) == opt_text(*b)),
{
    match (a, b) {
        (Some(x), Some(y)) => str_eq(x.as_str(), y.as_str()),
        (None, None) => true,
        _ => false,
    }
}

/// A copy of a list of strings.
pub fn clone_texts(list: &Vec<String>) -> (res: Vec<String>)
    ensures
        texts(res@) == texts(list@),
{
    let mut out: Vec<String> = Vec::new();
    let mut i: usize = 0;
    while i < list.len()
        invariant
            i <= list@.len(),
            out@.len() == i,
            forall|j: int| 0 <= j < i ==> (#[trigger] out@[j])@ == list@[j]@,
        decreases list@.len() - i,
    {
        out.push(list[i].clone());
        i += 1;
    }
    assert(texts(out@) =~= texts(list@));
    out
}

/// Whether two lists hold the same strings in the same order.
pub fn texts_eq(a: &Vec<String>, b: &Vec<String>) -> (res: bool)
    ensures
        res == (texts(a@) == texts(b@)),
{
    if a.len() != b.len() {
        assert(texts(a@).len() != texts(b@).len());
        return false;
    }
    let mut i: usize = 0;
    while i < a.len()
        invariant
            i <= a@.len(),
            a@.len() == b@.len(),
            forall|j: int| 0 <= j < i ==> (#[trigger] a@[j])@ == b@[j]@,
        decreases a@.len() - i,
    {
        if !str_eq(a[i].as_str(), b[i].as_str()) {
            assert(texts(a@)[i as int] != texts(b@)[i as int]);
            return false;
        }
        i += 1;
    }
    assert(texts(a@) =~= texts(b@));
    true
}

/// Whether a list holds a text.
pub fn texts_contain(list: &Vec<String>, text: &str) -> (res: bool)
    ensures
        res == texts(list@).contains(text@),
{
    let mut i: usize = 0;
    while i < list.len()
        invariant
            i <= list@.len(),
            forall|j: int| 0 <= j < i ==> (#[trigger] list@[j])@ != text@,
        decreases list@.len() - i,
    {
        if str_eq(list[i].as_str(), text) {
            assert(texts(list@)[i as int] == text@);
            return true;
        }
        i += 1;
    }
    assert forall|j: int| 0 <= j < texts(list@).len() implies texts(list@)[j] != text@ by {
        assert(list@[j]@ != text@);
    }
    false
}

/// The message of the error of `String::from_utf8` for bytes that are not UTF-8.
pub uninterp spec fn utf8_error_text(bytes: Seq<u8>) -> Seq<char>;

/// `String::from_utf8`: succeeds exactly on UTF-8, with the text whose encoding the bytes
/// are; what the message says of other bytes is left to the name `utf8_error_text`.
#[verifier::external_body]
fn std_from_utf8(bytes: Vec<u8>) -> (res: Result<String, String>)
    ensures
        match res {
            Ok(s) => encode_utf8(s@) == bytes@,
            Err(e) => !valid_utf8(bytes@) && e@ == utf8_error_text(bytes@),
        },
{
    String::from_utf8(bytes).map_err(|e| e.to_string())
}

/// The text whose UTF-8 encoding the bytes are, or what is wrong with the bytes.
pub fn string_from_utf8(bytes: Vec<u8>) -> (res: Result<String, String>)
    ensures
        match res {
            Ok(s) => encode_utf8(s@) == bytes@,
            Err(e) => !valid_utf8(bytes@) && e@ == utf8_error_text(bytes@),
        },
{
    std_from_utf8(bytes)
}

/// A text is fixed by its UTF-8 encoding.
pub proof fn lemma_encode_utf8_injective(a: Seq<char>, b: Seq<char>)
    requires
        encode_utf8(a) == encode_utf8(b),
    ensures
        a == b,
{
    vstd::utf8::encode_utf8_decode_utf8(a);
    vstd::utf8::encode_utf8_decode_utf8(b);
}

/// White space is the tab, the line ends, the form feed, the blanks of every width and the
/// separators of lines and paragraphs.
pub proof fn law_white_space(c: char)
    ensures
        whitespace(c) <==> c == '\t' || c == '\n' || c == '\u{b}' || c == '\u{c}' || c == '\r' || c == ' ' || c == '\u{85}' || c == '\u{a0}' || c == '\u{1680}' || c == '\u{2000}' || c == '\u{2001}' || c == '\u{2002}' || c == '\u{2003}' || c == '\u{2004}' || c == '\u{2005}' || c == '\u{2006}' || c == '\u{2007}' || c == '\u{2008}' || c == '\u{2009}' || c == '\u{200a}' || c == '\u{2028}' || c == '\u{2029}' || c == '\u{202f}' || c == '\u{205f}' || c == '\u{3000}',
{
}

/// Trimmed text is the part of the text between its first and its last character that is no
/// white space: only white space is taken off, from both ends, and all that is there.
pub proof fn law_trimmed_is_the_middle(s: Seq<char>) -> (ends: (int, int))
    ensures
        0 <= ends.0 <= ends.1 <= s.len(),
        trimmed(s) == s.subrange(ends.0, ends.1),
        forall|i: int| 0 <= i < ends.0 ==> whitespace(#[trigger] s[i]),
        forall|i: int| ends.1 <= i < s.len() ==> whitespace(#[trigger] s[i]),
        ends.0 < ends.1 ==> !whitespace(s[ends.0]) && !whitespace(s[ends.1 - 1]),
        ends.0 == ends.1 <==> forall|i: int| 0 <= i < s.len() ==> whitespace(#[trigger] s[i]),
{
    let from = law_trimmed_at_the_start(s);
    let t = s.skip(from);
    let to = law_trimmed_at_the_end(t);
    assert(s.subrange(from, from + to) =~= t.take(to));
    assert forall|i: int| from + to <= i < s.len() implies whitespace(#[trigger] s[i]) by {
        assert(whitespace(t[i - from]));
    }
    if to > 0 {
        assert(t[0] == s[from] && t[to - 1] == s[from + to - 1]);
    }
    (from, from + to)
}

/// What is taken off the front of a text is all white space there and nothing else.
pub proof fn law_trimmed_at_the_start(s: Seq<char>) -> (from: int)
    ensures
        0 <= from <= s.len(),
        trim_start_spec(s) == s.skip(from),
        forall|i: int| 0 <= i < from ==> whitespace(#[trigger] s[i]),
        from < s.len() ==> !whitespace(s[from]),
    decreases s.len(),
{
    if s.len() > 0 && whitespace(s[0]) {
        let n = law_trimmed_at_the_start(s.drop_first());
        assert(s.drop_first().skip(n) =~= s.skip(n + 1));
        assert forall|i: int| 0 <= i < n + 1 implies whitespace(#[trigger] s[i]) by {
            if i > 0 {
                assert(whitespace(s.drop_first()[i - 1]));
            }
        }
        n + 1
    } else {
        assert(s.skip(0) =~= s);
        0
    }
}

/// What is taken off the end of a text is all white space there and nothing else.
pub proof fn law_trimmed_at_the_end(s: Seq<char>) -> (to: int)
    ensures
        0 <= to <= s.len(),
        trim_end_spec(s) == s.take(to),
        forall|i: int| to <= i < s.len() ==> whitespace(#[trigger] s[i]),
        to > 0 ==> !whitespace(s[to - 1]),
    decreases s.len(),
{
    if s.len() > 0 && whitespace(s.last()) {
        let n = law_trimmed_at_the_end(s.drop_last());
        assert(s.drop_last().take(n) =~= s.take(n));
        assert forall|i: int| n <= i < s.len() implies whitespace(#[trigger] s[i]) by {
            if i < s.len() - 1 {
                assert(whitespace(s.drop_last()[i]));
            }
        }
        n
    } else {
        assert(s.take(s.len() as int) =~= s);
        s.len() as int
    }
}

/// Stripping takes all marks off the front, and only marks.
pub proof fn law_stripped_of_leading_marks(s: Seq<char>, mark: char) -> (from: int)
    ensures
        0 <= from <= s.len(),
        strip_leading(s, mark) == s.skip(from),
        forall|i: int| 0 <= i < from ==> #[trigger] s[i] == mark,
        from < s.len() ==> s[from] != mark,
    decreases s.len(),
{
    if s.len() > 0 && s[0] == mark {
        let n = law_stripped_of_leading_marks(s.drop_first(), mark);
        assert(s.drop_first().skip(n) =~= s.skip(n + 1));
        assert forall|i: int| 0 <= i < n + 1 implies #[trigger] s[i] == mark by {
            if i > 0 {
                assert(s.drop_first()[i - 1] == mark);
            }
        }
        n + 1
    } else {
        assert(s.skip(0) =~= s);
        0
    }
}

/// Stripping takes all marks off the end, and only marks.
pub proof fn law_stripped_of_trailing_marks(s: Seq<char>, mark: char) -> (to: int)
    ensures
        0 <= to <= s.len(),
        strip_trailing(s, mark) == s.take(to),
        forall|i: int| to <= i < s.len() ==> #[trigger] s[i] == mark,
        to > 0 ==> s[to - 1] != mark,
    decreases s.len(),
{
    if s.len() > 0 && s.last() == mark {
        let n = law_stripped_of_trailing_marks(s.drop_last(), mark);
        assert(s.drop_last().take(n) =~= s.take(n));
        assert forall|i: int| n <= i < s.len() implies #[trigger] s[i] == mark by {
            if i < s.len() - 1 {
                assert(s.drop_last()[i] == mark);
            }
        }
        n
    } else {
        assert(s.take(s.len() as int) =~= s);
        s.len() as int
    }
}

/// A text without white space is one word, and white space parts the words before it from those
/// after it.
pub proof fn law_words(a: Seq<char>, space: char, b: Seq<char>)
    requires
        whitespace(space),
    ensures
        words(a.push(space) + b) == words(a) + words(b),
        words(Seq::empty()) == Seq::<Seq<char>>::empty(),
        a.len() > 0 && (forall|i: int| 0 <= i < a.len() ==> !whitespace(#[trigger] a[i])) ==> words(
            a,
        ) == seq![a],
    decreases b.len(),
{
    if a.len() > 0 && (forall|i: int| 0 <= i < a.len() ==> !whitespace(#[trigger] a[i])) {
        lemma_one_word(a);
    }
    let all = a.push(space) + b;
    if b.len() == 0 {
        assert(all =~= a.push(space));
        assert(all.drop_last() =~= a);
        assert(words(a) + words(b) =~= words(a));
    } else {
        let init = b.drop_last();
        law_words(a, space, init);
        assert(all.drop_last() =~= a.push(space) + init);
        assert(all.last() == b.last());
        if !whitespace(b.last()) {
            if b.len() == 1 {
                assert(all[all.len() - 2] == space);
                assert(init =~= Seq::empty());
                assert(words(a) + words(init) =~= words(a));
                assert(words(b) =~= seq![seq![b.last()]]);
                assert(words(all) =~= words(a) + words(b));
            } else {
                assert(all[all.len() - 2] == b[b.len() - 2]);
                if whitespace(b[b.len() - 2]) {
                    assert(words(all) =~= words(a) + words(b));
                } else {
                    lemma_words_nonempty(init);
                    assert(words(all) =~= words(a) + words(b));
                }
            }
        }
    }
}

proof fn lemma_one_word(s: Seq<char>)
    requires
        s.len() > 0,
        forall|i: int| 0 <= i < s.len() ==> !whitespace(#[trigger] s[i]),
    ensures
        words(s) == seq![s],
    decreases s.len(),
{
    let init = s.drop_last();
    assert(!whitespace(s[s.len() - 1]));
    if s.len() == 1 {
        assert(init =~= Seq::empty());
        assert(s =~= seq![s.last()]);
        assert(words(init) =~= Seq::empty());
        assert(words(s) =~= seq![s]);
    } else {
        assert forall|i: int| 0 <= i < init.len() implies !whitespace(#[trigger] init[i]) by {
            assert(!whitespace(s[i]));
        }
        lemma_one_word(init);
        assert(!whitespace(s[s.len() - 2]));
        assert(init.push(s.last()) =~= s);
        assert(words(init).last() == init);
        assert(words(init).drop_last() =~= Seq::empty());
        assert(words(s) =~= seq![s]);
    }
}

/// Words are joined in order with one blank between neighbours.
pub proof fn law_joined_words(a: Seq<Seq<char>>, b: Seq<Seq<char>>, w: Seq<char>)
    ensures
        join_words(Seq::empty()) == Seq::<char>::empty(),
        join_words(seq![w]) == w,
        a.len() > 0 && b.len() > 0 ==> join_words(a + b) == join_words(a).push(' ') + join_words(b),
    decreases b.len(),
{
    if a.len() > 0 && b.len() > 0 {
        assert((a + b).drop_last() =~= a + b.drop_last());
        assert((a + b).last() == b.last());
        if b.len() == 1 {
            assert(a + b.drop_last() =~= a);
        } else {
            law_joined_words(a, b.drop_last(), w);
            assert(join_words(a + b) =~= join_words(a).push(' ') + join_words(b));
        }
    }
}

proof fn lemma_only_space(s: Seq<char>)
    requires
        forall|i: int| 0 <= i < s.len() ==> whitespace(#[trigger] s[i]),
    ensures
        words(s) == Seq::<Seq<char>>::empty(),
    decreases s.len(),
{
    if s.len() > 0 {
        let init = s.drop_last();
        assert forall|i: int| 0 <= i < init.len() implies whitespace(#[trigger] init[i]) by {
            assert(whitespace(s[i]));
        }
        lemma_only_space(init);
        assert(whitespace(s[s.len() - 1]));
    }
}

/// Normalized text is the words of the text in lower case with one blank between neighbours:
/// how much and which white space stands between two parts of a text, or around it, does not
/// count.
pub proof fn law_normalized_ignores_spacing(a: Seq<char>, space: Seq<char>, b: Seq<char>)
    requires
        space.len() > 0,
        forall|i: int| 0 <= i < space.len() ==> whitespace(#[trigger] space[i]),
    ensures
        normalized_text(a + space + b) == unicode_lowercase(join_words(words(a) + words(b))),
        normalized_text(a + space) == normalized_text(a),
        normalized_text(space + b) == normalized_text(b),
{
    let c = space[0];
    let rest = space.drop_first();
    assert forall|i: int| 0 <= i < rest.len() implies whitespace(#[trigger] rest[i]) by {
        assert(whitespace(space[i + 1]));
    }
    assert(whitespace(c));
    lemma_after_space(rest, b);
    lemma_after_space(rest, Seq::empty());
    assert(rest + Seq::<char>::empty() =~= rest);
    law_words(a, c, rest + b);
    law_words(a, c, rest);
    law_words(Seq::empty(), c, rest + b);
    assert(a.push(c) + (rest + b) =~= a + space + b);
    assert(a.push(c) + rest =~= a + space);
    assert(Seq::<char>::empty().push(c) + (rest + b) =~= space + b);
    assert(words(a) + words(Seq::empty()) =~= words(a));
    assert(words(Seq::<char>::empty()) + words(b) =~= words(b));
}

proof fn lemma_after_space(space: Seq<char>, b: Seq<char>)
    requires
        forall|i: int| 0 <= i < space.len() ==> whitespace(#[trigger] space[i]),
    ensures
        words(space + b) == words(b),
{
    if space.len() == 0 {
        assert(space + b =~= b);
    } else {
        let init = space.drop_last();
        assert forall|i: int| 0 <= i < init.len() implies whitespace(#[trigger] init[i]) by {
            assert(whitespace(space[i]));
        }
        assert(whitespace(space[space.len() - 1]));
        law_words(init, space.last(), b);
        lemma_only_space(init);
        assert(init.push(space.last()) =~= space);
        assert(words(init) + words(b) =~= words(b));
    }
}

/// A text stands in another exactly when the other is made of it and what comes before and after
/// it; it stands at the start, or at the end, when nothing comes before, or after.
pub proof fn law_text_stands_in_another(before: Seq<char>, needle: Seq<char>, after: Seq<char>, hay: Seq<char>)
    ensures
        contains_text(before + needle + after, needle),
        starts_with_text(needle + after, needle),
        ends_with_text(before + needle, needle),
        contains_text(hay, needle) ==> exists|a: Seq<char>, b: Seq<char>| hay == #[trigger] (a + needle + b),
        starts_with_text(hay, needle) ==> hay == needle + hay.skip(needle.len() as int),
        ends_with_text(hay, needle) ==> hay == hay.take(hay.len() - needle.len()) + needle,
{
    let n = needle.len() as int;
    assert((before + needle + after).subrange(before.len() as int, before.len() + n) =~= needle);
    assert(occurs_at(before + needle + after, needle, before.len() as int));
    assert((needle + after).subrange(0, n) =~= needle);
    assert((before + needle).subrange(before.len() as int, before.len() + n) =~= needle);
    if contains_text(hay, needle) {
        let at = choose|at: int| #[trigger] occurs_at(hay, needle, at);
        assert(hay =~= hay.take(at) + hay.subrange(at, at + n) + hay.skip(at + n));
        assert(hay == hay.take(at) + needle + hay.skip(at + n));
    }
    if starts_with_text(hay, needle) {
        assert(hay =~= hay.subrange(0, n) + hay.skip(n));
    }
    if ends_with_text(hay, needle) {
        assert(hay =~= hay.take(hay.len() - n) + hay.subrange(hay.len() - n, hay.len() as int));
    }
}

/// Two texts are the same but for case exactly when they are equally long and at each place hold
/// the same character, or one holds a letter from A to Z and the other its small form.
pub proof fn law_same_but_for_case(a: Seq<char>, b: Seq<char>)
    ensures
        same_ignoring_case(a, b) <==> a.len() == b.len() && forall|i: int|
            0 <= i < a.len() ==> #[trigger] a[i] == b[i] || ('A' <= a[i] <= 'Z' && b[i] as int == a[i]
                as int + 32) || ('A' <= b[i] <= 'Z' && a[i] as int == b[i] as int + 32),
{
    if same_ignoring_case(a, b) {
        assert(ascii_lower(a).len() == ascii_lower(b).len());
        assert forall|i: int| 0 <= i < a.len() implies #[trigger] a[i] == b[i] || ('A' <= a[i] <= 'Z'
            && b[i] as int == a[i] as int + 32) || ('A' <= b[i] <= 'Z' && a[i] as int == b[i] as int
            + 32) by {
            assert(ascii_lower(a)[i] == ascii_lower(b)[i]);
        }
    }
    if a.len() == b.len() && forall|i: int|
        0 <= i < a.len() ==> #[trigger] a[i] == b[i] || ('A' <= a[i] <= 'Z' && b[i] as int == a[i]
            as int + 32) || ('A' <= b[i] <= 'Z' && a[i] as int == b[i] as int + 32) {
        assert(ascii_lower(a) =~= ascii_lower(b));
    }
}

/// A text comes before another exactly when, after what they have in common at the start, it ends
/// first or goes on with a smaller character.
pub proof fn law_texts_in_order(a: Seq<char>, b: Seq<char>, common: int)
    requires
        0 <= common <= a.len(),
        common <= b.len(),
        a.take(common) == b.take(common),
        common < a.len() && common < b.len() ==> a[common] != b[common],
    ensures
        text_less(a, b) <==> common < b.len() && (common == a.len() || (a[common] as int) < (
        b[common] as int)),
    decreases common,
{
    if common > 0 {
        assert(a[0] == a.take(common)[0] && b[0] == b.take(common)[0]);
        let x = a.drop_first();
        let y = b.drop_first();
        assert(x.take(common - 1) =~= a.take(common).skip(1));
        assert(y.take(common - 1) =~= b.take(common).skip(1));
        law_texts_in_order(x, y, common - 1);
    }
}

/// The number that decimal digits give.
pub open spec fn digits_value(s: Seq<char>) -> int
    decreases s.len(),
{
    if s.len() == 0 {
        0
    } else {
        digits_value(s.drop_last()) * 10 + (s.last() as int - '0' as int)
    }
}

/// The decimal text of a number is made of digits only, gives the number back, and has no leading
/// zero but for zero itself.
pub proof fn law_decimal_text(n: nat)
    ensures
        digits_value(decimal_text(n)) == n,
        decimal_text(n).len() > 0,
        forall|i: int| 0 <= i < decimal_text(n).len() ==> '0' <= #[trigger] decimal_text(n)[i] <= '9',
        decimal_text(n)[0] == '0' ==> n == 0,
    decreases n,
{
    reveal_with_fuel(digits_value, 2);
    let s = decimal_text(n);
    if n < 10 {
        assert(s.drop_last() =~= Seq::empty());
    } else {
        law_decimal_text(n / 10);
        assert(s.drop_last() =~= decimal_text(n / 10));
        assert(s[0] == decimal_text(n / 10)[0]);
        assert forall|i: int| 0 <= i < s.len() implies '0' <= #[trigger] s[i] <= '9' by {
            if i < s.len() - 1 {
                assert(s[i] == decimal_text(n / 10)[i]);
            }
        }
    }
}

} // verus!
