//! The grammar of a single configuration line.

use vstd::prelude::*;

verus! {

/// Whether `c` is blank. The blank characters are those with the Unicode
/// property White_Space, listed here by code point: among them tab, line
/// feed, carriage return, space and no-break space.
pub open spec fn is_blank(c: char) -> bool {
    let n = c as u32;
    ||| 0x0009 <= n <= 0x000D
    ||| n == 0x0020
    ||| n == 0x0085
    ||| n == 0x00A0
    ||| n == 0x1680
    ||| 0x2000 <= n <= 0x200A
    ||| n == 0x2028
    ||| n == 0x2029
    ||| n == 0x202F
    ||| n == 0x205F
    ||| n == 0x3000
}

/// `s` without the blank characters at its start.
pub open spec fn trim_start(s: Seq<char>) -> Seq<char>
    decreases s.len(),
{
    if s.len() > 0 && is_blank(s.first()) {
        trim_start(s.drop_first())
    } else {
        s
    }
}

/// `s` without the blank characters at its end.
pub open spec fn trim_end(s: Seq<char>) -> Seq<char>
    decreases s.len(),
{
    if s.len() > 0 && is_blank(s.last()) {
        trim_end(s.drop_last())
    } else {
        s
    }
}

/// `s` without the blank characters at either end.
pub open spec fn trim(s: Seq<char>) -> Seq<char> {
    trim_end(trim_start(s))
}

/// Position of the first `c` in `s`.
pub open spec fn first_index_of(s: Seq<char>, c: char) -> Option<int>
    decreases s.len(),
{
    if s.len() == 0 {
        None
    } else if s.first() == c {
        Some(0)
    } else {
        match first_index_of(s.drop_first(), c) {
            Some(i) => Some(i + 1),
            None => None,
        }
    }
}

/// The optional word that may stand before a profile's name in a header.
pub open spec fn profile_prefix() -> Seq<char> {
    "profile "@
}

/// The profile name inside the brackets of a header: what follows the
/// prefix where the prefix is there and something follows it, else all of
/// it.
pub open spec fn strip_profile_prefix(inner: Seq<char>) -> Seq<char> {
    let p = profile_prefix();
    if inner.len() > p.len() && inner.subrange(0, p.len() as int) == p {
        inner.subrange(p.len() as int, inner.len() as int)
    } else {
        inner
    }
}

/// The name that a header line opens: the line is `[`, then one or more
/// characters other than `]`, then `]`, and nothing else. As a regular
/// expression the headers are the lines that match
/// `^\[(profile )?([^\]]+)\]$`, and the name is its second group.
pub open spec fn header_name(line: Seq<char>) -> Option<Seq<char>> {
    let inner = line.subrange(1, line.len() - 1);
    if line.len() >= 3 && line.first() == '[' && line.last() == ']' && !inner.contains(']') {
        Some(strip_profile_prefix(inner))
    } else {
        None
    }
}

/// Key and value of a `KEY = VALUE` line: the text is cut at its first `=`,
/// both sides are trimmed, and neither may be empty.
pub open spec fn key_value(line: Seq<char>) -> Option<(Seq<char>, Seq<char>)> {
    match first_index_of(line, '=') {
        Some(i) => {
            let key = trim(line.subrange(0, i));
            let value = trim(line.subrange(i + 1, line.len() as int));
            if key.len() > 0 && value.len() > 0 {
                Some((key, value))
            } else {
                None
            }
        },
        None => None,
    }
}

/// What one line of a configuration file says.
#[derive(Debug)]
pub enum ConfigLine {
    /// Blank, a comment, or text that fits no rule: it changes nothing.
    Ignored,
    /// Opens the profile of this name.
    Header(String),
    /// Sets a key of the current profile to a value.
    Assignment(String, String),
}

/// The mathematical value of a [`ConfigLine`].
pub ghost enum ConfigLineView {
    Ignored,
    Header(Seq<char>),
    Assignment(Seq<char>, Seq<char>),
}

impl View for ConfigLine {
    type V = ConfigLineView;

    open spec fn view(&self) -> ConfigLineView {
        match self {
            ConfigLine::Ignored => ConfigLineView::Ignored,
            ConfigLine::Header(name) => ConfigLineView::Header(name@),
            ConfigLine::Assignment(key, value) => ConfigLineView::Assignment(key@, value@),
        }
    }
}

/// The meaning of a line: it is trimmed first; an empty line or one that
/// starts with `#` is ignored; a header is tried before an assignment.
pub open spec fn classify(line: Seq<char>) -> ConfigLineView {
    let t = trim(line);
    if t.len() == 0 || t.first() == '#' {
        ConfigLineView::Ignored
    } else {
        match header_name(t) {
            Some(name) => ConfigLineView::Header(name),
            None => match key_value(t) {
                Some((key, value)) => ConfigLineView::Assignment(key, value),
                None => ConfigLineView::Ignored,
            },
        }
    }
}

/// The first index of a character is an index that holds it, and no
/// earlier one does; there is none only where the character does not occur.
pub proof fn lemma_first_index_of(s: Seq<char>, c: char)
    ensures
        match first_index_of(s, c) {
            Some(i) => 0 <= i < s.len() && s[i] == c && forall|j: int| 0 <= j < i ==> s[j] != c,
            None => forall|j: int| 0 <= j < s.len() ==> s[j] != c,
        },
    decreases s.len(),
{
    if s.len() > 0 && s.first() != c {
        let rest = s.drop_first();
        lemma_first_index_of(rest, c);
        match first_index_of(rest, c) {
            Some(i) => {
                assert forall|j: int| 0 <= j < i + 1 implies s[j] != c by {
                    if j > 0 {
                        assert(rest[j - 1] == s[j]);
                    }
                }
            },
            None => {
                assert forall|j: int| 0 <= j < s.len() implies s[j] != c by {
                    if j > 0 {
                        assert(rest[j - 1] == s[j]);
                    }
                }
            },
        }
    }
}

/// Trimming cuts blank characters and nothing else, and leaves none at the
/// start.
pub proof fn lemma_trim_start(s: Seq<char>)
    ensures
        ({
            let t = trim_start(s);
            let cut = s.len() - t.len();
            &&& 0 <= cut <= s.len()
            &&& t == s.subrange(cut, s.len() as int)
            &&& forall|i: int| 0 <= i < cut ==> is_blank(s[i])
            &&& t.len() > 0 ==> !is_blank(t.first())
        }),
    decreases s.len(),
{
    if s.len() > 0 && is_blank(s.first()) {
        let rest = s.drop_first();
        lemma_trim_start(rest);
        let t = trim_start(s);
        let cut = s.len() - t.len();
        assert(t =~= s.subrange(cut, s.len() as int));
        assert forall|i: int| 0 <= i < cut implies is_blank(s[i]) by {
            if i > 0 {
                assert(rest[i - 1] == s[i]);
            }
        }
    } else {
        assert(s =~= s.subrange(0, s.len() as int));
    }
}

/// Trimming cuts blank characters and nothing else, and leaves none at the
/// end.
pub proof fn lemma_trim_end(s: Seq<char>)
    ensures
        ({
            let t = trim_end(s);
            &&& t.len() <= s.len()
            &&& t == s.subrange(0, t.len() as int)
            &&& forall|i: int| t.len() <= i < s.len() ==> is_blank(s[i])
            &&& t.len() > 0 ==> !is_blank(t.last())
        }),
    decreases s.len(),
{
    if s.len() > 0 && is_blank(s.last()) {
        let rest = s.drop_last();
        lemma_trim_end(rest);
        let t = trim_end(s);
        assert(t =~= s.subrange(0, t.len() as int));
        assert forall|i: int| t.len() <= i < s.len() implies is_blank(s[i]) by {
            if i < rest.len() {
                assert(rest[i] == s[i]);
            }
        }
    } else {
        assert(s =~= s.subrange(0, s.len() as int));
    }
}

/// The trimmed text is the part of the text between its first and its last
/// character that is not blank: what is cut at either end is blank
/// characters only, and what is left neither starts nor ends with one.
pub proof fn lemma_trim(s: Seq<char>)
    ensures
        exists|from: int, to: int|
            {
                &&& 0 <= from <= to <= s.len()
                &&& #[trigger] s.subrange(from, to) == trim(s)
                &&& forall|i: int| 0 <= i < from || to <= i < s.len() ==> is_blank(s[i])
            },
        trim(s).len() > 0 ==> !is_blank(trim(s).first()) && !is_blank(trim(s).last()),
{
    let front = trim_start(s);
    lemma_trim_start(s);
    lemma_trim_end(front);
    let from = s.len() - front.len();
    let to = from + trim(s).len();
    assert(s.subrange(from, to) =~= trim(s));
    assert forall|i: int| 0 <= i < from || to <= i < s.len() implies is_blank(s[i]) by {
        if to <= i {
            assert(front[i - from] == s[i]);
        }
    }
    if trim(s).len() > 0 {
        assert(trim(s).first() == front.first());
    }
}

/// A line that is blank throughout, and a line whose first character that
/// is not blank is `#`, say nothing.
pub proof fn lemma_blank_lines_and_comments_are_ignored(line: Seq<char>, first: int)
    requires
        0 <= first <= line.len(),
        forall|i: int| 0 <= i < first ==> is_blank(line[i]),
        first < line.len() ==> line[first] == '#',
    ensures
        classify(line) == ConfigLineView::Ignored,
{
    let front = trim_start(line);
    lemma_trim_start(line);
    lemma_trim_end(front);
    let cut = line.len() - front.len();
    if front.len() > 0 {
        assert(front.first() == line[cut]);
        assert(cut == first);
        assert(trim(line).len() > 0) by {
            if trim(line).len() == 0 {
                assert(is_blank(front[0]));
            }
        }
        assert(trim(line).first() == front.first());
    }
}

/// A header names a profile of at least one character; an assignment has a
/// key and a value of at least one character each.
pub proof fn lemma_classified_parts_not_empty(line: Seq<char>)
    ensures
        match classify(line) {
            ConfigLineView::Ignored => true,
            ConfigLineView::Header(name) => name.len() > 0,
            ConfigLineView::Assignment(key, value) => key.len() > 0 && value.len() > 0,
        },
{
}

/// The characters of `s`.
fn to_chars(s: &str) -> (cs: Vec<char>)
    ensures
        cs@ == s@,
{
    let mut cs: Vec<char> = Vec::new();
    for c in it: s.chars()
        invariant
            cs@ == it.seq().take(it.index() as int),
            it.seq() == s@,
    {
        cs.push(c);
    }
    cs
}

/// Whether `c` is blank.
pub fn is_blank_char(c: char) -> (b: bool)
    ensures
        b == is_blank(c),
{
    let n = c as u32;
    if n < 0x0080 {
        (0x0009 <= n && n <= 0x000D) || n == 0x0020
    } else if n < 0x2000 {
        n == 0x0085 || n == 0x00A0 || n == 0x1680
    } else {
        n <= 0x200A || n == 0x2028 || n == 0x2029 || n == 0x202F || n == 0x205F || n == 0x3000
    }
}

/// First position in `lo..hi` that holds no blank character, or `hi`.
fn skip_blanks(cs: &Vec<char>, lo: usize, hi: usize) -> (r: usize)
    requires
        lo <= hi <= cs@.len(),
    ensures
        lo <= r <= hi,
        cs@.subrange(r as int, hi as int) == trim_start(cs@.subrange(lo as int, hi as int)),
{
    let mut i: usize = lo;
    while i < hi && is_blank_char(cs[i])
        invariant
            lo <= i <= hi <= cs@.len(),
            trim_start(cs@.subrange(i as int, hi as int)) == trim_start(
                cs@.subrange(lo as int, hi as int),
            ),
        decreases hi - i,
    {
        assert(cs@.subrange(i as int, hi as int).drop_first() =~= cs@.subrange(
            i as int + 1,
            hi as int,
        ));
        i += 1;
    }
    i
}

/// End of the part of `lo..hi` that is left when the blank characters at
/// its end go.
fn skip_blanks_back(cs: &Vec<char>, lo: usize, hi: usize) -> (r: usize)
    requires
        lo <= hi <= cs@.len(),
    ensures
        lo <= r <= hi,
        cs@.subrange(lo as int, r as int) == trim_end(cs@.subrange(lo as int, hi as int)),
{
    let mut i: usize = hi;
    while i > lo && is_blank_char(cs[i - 1])
        invariant
            lo <= i <= hi <= cs@.len(),
            trim_end(cs@.subrange(lo as int, i as int)) == trim_end(
                cs@.subrange(lo as int, hi as int),
            ),
        decreases i - lo,
    {
        assert(cs@.subrange(lo as int, i as int).drop_last() =~= cs@.subrange(
            lo as int,
            i as int - 1,
        ));
        i -= 1;
    }
    i
}

/// Position of the first `c` in `lo..hi`.
fn find_char(cs: &Vec<char>, lo: usize, hi: usize, c: char) -> (r: Option<usize>)
    requires
        lo <= hi <= cs@.len(),
    ensures
        match r {
            Some(i) => lo <= i < hi && first_index_of(cs@.subrange(lo as int, hi as int), c)
                == Some(i - lo),
            None => first_index_of(cs@.subrange(lo as int, hi as int), c) is None,
        },
{
    let mut i: usize = hi;
    let mut found: Option<usize> = None;
    while i > lo
        invariant
            lo <= i <= hi <= cs@.len(),
            match found {
                Some(j) => i <= j < hi && first_index_of(cs@.subrange(i as int, hi as int), c)
                    == Some(j - i),
                None => first_index_of(cs@.subrange(i as int, hi as int), c) is None,
            },
        decreases i - lo,
    {
        i -= 1;
        assert(cs@.subrange(i as int, hi as int).drop_first() =~= cs@.subrange(
            i as int + 1,
            hi as int,
        ));
        if cs[i] == c {
            found = Some(i);
        }
    }
    found
}

/// Whether the text in `lo..hi` starts with `prefix`.
fn starts_with(cs: &Vec<char>, lo: usize, hi: usize, prefix: &Vec<char>) -> (b: bool)
    requires
        lo <= hi <= cs@.len(),
    ensures
        b == (hi - lo >= prefix@.len() && cs@.subrange(lo as int, lo + prefix@.len()) == prefix@),
{
    if hi - lo < prefix.len() {
        return false;
    }
    let mut j: usize = 0;
    while j < prefix.len()
        invariant
            lo <= hi <= cs@.len(),
            hi - lo >= prefix@.len(),
            j <= prefix@.len(),
            cs@.subrange(lo as int, lo + j) == prefix@.subrange(0, j as int),
        decreases prefix@.len() - j,
    {
        if cs[lo + j] != prefix[j] {
            assert(cs@.subrange(lo as int, lo + prefix@.len())[j as int] != prefix@[j as int]);
            return false;
        }
        assert(cs@.subrange(lo as int, lo + j + 1) =~= cs@.subrange(lo as int, lo + j).push(
            cs@[lo + j],
        ));
        assert(prefix@.subrange(0, j + 1) =~= prefix@.subrange(0, j as int).push(prefix@[j as int]));
        j += 1;
    }
    assert(prefix@.subrange(0, j as int) =~= prefix@);
    true
}

/// Whether `c` occurs in `lo..hi`.
fn has_char(cs: &Vec<char>, lo: usize, hi: usize, c: char) -> (b: bool)
    requires
        lo <= hi <= cs@.len(),
    ensures
        b == cs@.subrange(lo as int, hi as int).contains(c),
{
    let mut i: usize = lo;
    while i < hi
        invariant
            lo <= i <= hi <= cs@.len(),
            forall|j: int| lo <= j < i ==> cs@[j] != c,
        decreases hi - i,
    {
        if cs[i] == c {
            assert(cs@.subrange(lo as int, hi as int)[i - lo] == c);
            return true;
        }
        i += 1;
    }
    assert forall|j: int| 0 <= j < hi - lo implies cs@.subrange(lo as int, hi as int)[j] != c by {}
    false
}

/// Where the profile name of the header in `lo..hi` lies, if that text is a
/// header.
fn header_bounds(cs: &Vec<char>, lo: usize, hi: usize) -> (r: Option<(usize, usize)>)
    requires
        lo <= hi <= cs@.len(),
    ensures
        match r {
            Some((a, b)) => lo <= a <= b <= hi && header_name(cs@.subrange(lo as int, hi as int))
                == Some(cs@.subrange(a as int, b as int)),
            None => header_name(cs@.subrange(lo as int, hi as int)) is None,
        },
{
    let ghost line = cs@.subrange(lo as int, hi as int);
    if hi - lo < 3 || cs[lo] != '[' || cs[hi - 1] != ']' {
        return None;
    }
    let ghost inner = line.subrange(1, line.len() - 1);
    assert(inner =~= cs@.subrange(lo + 1, hi - 1));
    if has_char(cs, lo + 1, hi - 1, ']') {
        return None;
    }
    let prefix = to_chars("profile ");
    let a = lo + 1;
    let b = hi - 1;
    if b - a > prefix.len() && starts_with(cs, a, b, &prefix) {
        assert(inner.subrange(0, prefix@.len() as int) =~= cs@.subrange(
            a as int,
            a + prefix@.len(),
        ));
        assert(inner.subrange(prefix@.len() as int, inner.len() as int) =~= cs@.subrange(
            a + prefix@.len(),
            b as int,
        ));
        Some((a + prefix.len(), b))
    } else {
        proof {
            if b - a > prefix@.len() {
                assert(inner.subrange(0, prefix@.len() as int) =~= cs@.subrange(
                    a as int,
                    a + prefix@.len(),
                ));
            }
        }
        Some((a, b))
    }
}

/// Reads one line of a configuration file.
pub fn classify_line(line: &str) -> (r: ConfigLine)
    ensures
        r@ == classify(line@),
{
    let cs = to_chars(line);
    let n = cs.len();
    let lo = skip_blanks(&cs, 0, n);
    let hi = skip_blanks_back(&cs, lo, n);
    assert(cs@.subrange(0, n as int) =~= cs@);
    let ghost t = cs@.subrange(lo as int, hi as int);
    assert(t == trim(line@));
    if lo == hi || cs[lo] == '#' {
        return ConfigLine::Ignored;
    }
    if let Some((a, b)) = header_bounds(&cs, lo, hi) {
        let name = line.substring_char(a, b).to_owned();
        return ConfigLine::Header(name);
    }
    match find_char(&cs, lo, hi, '=') {
        None => ConfigLine::Ignored,
        Some(e) => {
            let ka = skip_blanks(&cs, lo, e);
            let kb = skip_blanks_back(&cs, ka, e);
            let va = skip_blanks(&cs, e + 1, hi);
            let vb = skip_blanks_back(&cs, va, hi);
            assert(t.subrange(0, e - lo) =~= cs@.subrange(lo as int, e as int));
            assert(t.subrange(e - lo + 1, t.len() as int) =~= cs@.subrange(e + 1, hi as int));
            if ka < kb && va < vb {
                let key = line.substring_char(ka, kb).to_owned();
                let value = line.substring_char(va, vb).to_owned();
                ConfigLine::Assignment(key, value)
            } else {
                ConfigLine::Ignored
            }
        },
    }
}

} // verus!
