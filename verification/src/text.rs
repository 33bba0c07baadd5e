//! Text primitives: equality, searching, trimming and joining, each stated over
//! sequences of characters.

use vstd::prelude::*;
use vstd::string::*;
use vstd::utf8::*;

verus! {

/// True when `pat` stands in `s` at index `i`.
pub open spec fn occurs_at(s: Seq<char>, pat: Seq<char>, i: int) -> bool {
    &&& 0 <= i
    &&& i + pat.len() <= s.len()
    &&& s.subrange(i, i + pat.len()) == pat
}

/// The first index from `i` on at which `pat` occurs in `s`.
pub open spec fn find_from(s: Seq<char>, pat: Seq<char>, i: int) -> Option<int>
    decreases s.len() - i + 1,
{
    if i + pat.len() > s.len() {
        None
    } else if occurs_at(s, pat, i) {
        Some(i)
    } else {
        find_from(s, pat, i + 1)
    }
}

/// The index of the first occurrence of `pat` in `s`.
pub open spec fn find(s: Seq<char>, pat: Seq<char>) -> Option<int> {
    find_from(s, pat, 0)
}

/// True when `pat` occurs somewhere in `s`.
pub open spec fn contains_text(s: Seq<char>, pat: Seq<char>) -> bool {
    exists|i: int| occurs_at(s, pat, i)
}

/// What is left of `s` behind `prefix`, if `s` begins with it.
pub open spec fn without_prefix(s: Seq<char>, prefix: Seq<char>) -> Option<Seq<char>> {
    if prefix.is_prefix_of(s) {
        Some(s.skip(prefix.len() as int))
    } else {
        None
    }
}

/// The characters with the Unicode property White_Space.
pub open spec fn white_space(c: char) -> bool {
    ||| '\u{9}' <= c <= '\u{d}'
    ||| c == '\u{20}'
    ||| c == '\u{85}'
    ||| c == '\u{a0}'
    ||| c == '\u{1680}'
    ||| '\u{2000}' <= c <= '\u{200a}'
    ||| c == '\u{2028}'
    ||| c == '\u{2029}'
    ||| c == '\u{202f}'
    ||| c == '\u{205f}'
    ||| c == '\u{3000}'
}

/// `s` without the white space at its start.
pub open spec fn trimmed_start(s: Seq<char>) -> Seq<char>
    decreases s.len(),
{
    if s.len() > 0 && white_space(s[0]) {
        trimmed_start(s.skip(1))
    } else {
        s
    }
}

/// `s` without the white space at its end.
pub open spec fn trimmed_end(s: Seq<char>) -> Seq<char>
    decreases s.len(),
{
    if s.len() > 0 && white_space(s.last()) {
        trimmed_end(s.drop_last())
    } else {
        s
    }
}

/// `s` without the white space at either end.
pub open spec fn trimmed(s: Seq<char>) -> Seq<char> {
    trimmed_end(trimmed_start(s))
}

/// `s` without the run of `c` at its end.
pub open spec fn without_trailing(s: Seq<char>, c: char) -> Seq<char>
    decreases s.len(),
{
    if s.len() > 0 && s.last() == c {
        without_trailing(s.drop_last(), c)
    } else {
        s
    }
}

/// The parts one after the other, with `sep` between neighbours.
pub open spec fn joined(parts: Seq<Seq<char>>, sep: Seq<char>) -> Seq<char>
    decreases parts.len(),
{
    if parts.len() == 0 {
        Seq::empty()
    } else if parts.len() == 1 {
        parts[0]
    } else {
        joined(parts.drop_last(), sep) + sep + parts.last()
    }
}

/// The contents of each string of a list.
pub open spec fn text_views(list: Seq<String>) -> Seq<Seq<char>> {
    list.map_values(|s: String| s@)
}

/// The content of a string that may be missing.
pub open spec fn optional_text(s: Option<String>) -> Option<Seq<char>> {
    match s {
        Some(text) => Some(text@),
        None => None,
    }
}

/// The line without a carriage return at its end.
pub open spec fn without_carriage_return(line: Seq<char>) -> Seq<char> {
    if line.len() > 0 && line.last() == '\r' {
        line.drop_last()
    } else {
        line
    }
}

/// The lines of a text. A line ends in a line feed or in a carriage return and a
/// line feed, neither of which is part of it; the end of the last line may be
/// missing.
pub open spec fn text_lines(s: Seq<char>) -> Seq<Seq<char>>
    decreases s.len(),
{
    match find(s, seq!['\n']) {
        Some(i) if 0 <= i < s.len() => seq![without_carriage_return(s.take(i))] + text_lines(
            s.skip(i + 1),
        ),
        _ => if s.len() == 0 {
            Seq::empty()
        } else {
            seq![s]
        },
    }
}

/// The decimal digit of a value below ten.
pub open spec fn digit(d: nat) -> char {
    (48 + d) as char
}

/// The decimal notation of a number.
pub open spec fn decimal(n: nat) -> Seq<char>
    decreases n,
{
    if n < 10 {
        seq![digit(n)]
    } else {
        decimal(n / 10).push(digit(n % 10))
    }
}

/// What `find_from` returns: the least index from `i` on at which the pattern
/// occurs, or nothing if there is none.
pub proof fn lemma_find_from(s: Seq<char>, pat: Seq<char>, i: int)
    requires
        0 <= i,
    ensures
        match find_from(s, pat, i) {
            Some(k) => {
                &&& i <= k
                &&& occurs_at(s, pat, k)
                &&& forall|j: int| i <= j < k ==> !occurs_at(s, pat, j)
            },
            None => forall|j: int| i <= j ==> !occurs_at(s, pat, j),
        },
    decreases s.len() - i + 1,
{
    if i + pat.len() <= s.len() && !occurs_at(s, pat, i) {
        lemma_find_from(s, pat, i + 1);
    }
}

/// The index that `find_from` returns is the only one with these properties.
pub proof fn lemma_find_from_unique(s: Seq<char>, pat: Seq<char>, i: int, k: int)
    requires
        0 <= i <= k,
        occurs_at(s, pat, k),
        forall|j: int| i <= j < k ==> !occurs_at(s, pat, j),
    ensures
        find_from(s, pat, i) == Some(k),
{
    lemma_find_from(s, pat, i);
}

/// A pattern that occurs in a text occurs at the same place, and no earlier, in
/// the text with more behind it.
pub proof fn lemma_find_extended(s: Seq<char>, pat: Seq<char>, more: Seq<char>)
    ensures
        find(s, pat) is Some ==> find(s + more, pat) == find(s, pat),
{
    lemma_find_from(s, pat, 0);
    if let Some(k) = find(s, pat) {
        let t = s + more;
        assert(t.subrange(k, k + pat.len()) == s.subrange(k, k + pat.len()));
        assert forall|j: int| 0 <= j < k implies !occurs_at(t, pat, j) by {
            assert(!occurs_at(s, pat, j));
            assert(t.subrange(j, j + pat.len()) == s.subrange(j, j + pat.len()));
        }
        lemma_find_from_unique(t, pat, 0, k);
    }
}

/// Searching a text from an index on is searching what stands from there on.
pub proof fn lemma_find_from_suffix(s: Seq<char>, pat: Seq<char>, i: int)
    requires
        0 <= i <= s.len(),
    ensures
        match find_from(s, pat, i) {
            Some(k) => find(s.skip(i), pat) == Some(k - i),
            None => find(s.skip(i), pat) is None,
        },
{
    let t = s.skip(i);
    lemma_find_from(s, pat, i);
    lemma_find_from(t, pat, 0);
    assert forall|j: int| 0 <= j && j + pat.len() <= t.len() implies occurs_at(t, pat, j)
        == #[trigger] occurs_at(s, pat, i + j) by {
        assert(t.subrange(j, j + pat.len()) == s.subrange(i + j, i + j + pat.len()));
    }
    match find_from(s, pat, i) {
        Some(k) => {
            assert(occurs_at(s, pat, i + (k - i)));
            assert forall|j: int| 0 <= j < k - i implies !occurs_at(t, pat, j) by {
                assert(!occurs_at(s, pat, i + j));
            }
            lemma_find_from_unique(t, pat, 0, k - i);
        },
        None => {
            if let Some(j) = find(t, pat) {
                assert(occurs_at(s, pat, i + j));
            }
        },
    }
}

/// What is left of a text without the run of a character at its end is a prefix,
/// does not end in the character, and has nothing but the character behind it.
pub proof fn lemma_without_trailing(s: Seq<char>, c: char)
    ensures
        without_trailing(s, c).len() <= s.len(),
        without_trailing(s, c) == s.take(without_trailing(s, c).len() as int),
        without_trailing(s, c).len() > 0 ==> without_trailing(s, c).last() != c,
        forall|i: int| without_trailing(s, c).len() <= i < s.len() ==> s[i] == c,
    decreases s.len(),
{
    if s.len() > 0 && s.last() == c {
        let t = s.drop_last();
        lemma_without_trailing(t, c);
        assert forall|i: int| without_trailing(s, c).len() <= i < s.len() implies s[i] == c by {
            if i < t.len() {
                assert(t[i] == c);
            }
        }
    }
}

/// The characters of a string.
pub fn chars_of(s: &str) -> (v: Vec<char>)
    ensures
        v@ == s@,
{
    let mut v: Vec<char> = Vec::new();
    for c in it: s.chars()
        invariant
            it.seq() == s@,
            v@ == s@.take(it.index() as int),
    {
        v.push(c);
    }
    v
}

/// Whether two strings hold the same text.
pub fn str_eq(a: &str, b: &str) -> (r: bool)
    ensures
        r == (a@ == b@),
{
    let x = a.as_bytes();
    let y = b.as_bytes();
    if x.len() != y.len() {
        return false;
    }
    let mut i: usize = 0;
    while i < x.len()
        invariant
            i <= x.len(),
            x.len() == y.len(),
            x@ == a.spec_bytes(),
            y@ == b.spec_bytes(),
            forall|j: int| 0 <= j < i ==> x@[j] == y@[j],
        decreases x.len() - i,
    {
        if x[i] != y[i] {
            return false;
        }
        i += 1;
    }
    proof {
        assert(x@ == y@);
        encode_utf8_decode_utf8(a@);
        encode_utf8_decode_utf8(b@);
    }
    true
}

/// The characters of `s` from index `from` up to `to`.
pub fn slice_chars(s: &str, from: usize, to: usize) -> (r: String)
    requires
        from <= to <= s@.len(),
    ensures
        r@ == s@.subrange(from as int, to as int),
{
    s.substring_char(from, to).to_owned()
}

/// Whether `pat` stands in `s` at index `i`.
fn matches_at(s: &Vec<char>, pat: &Vec<char>, i: usize) -> (r: bool)
    requires
        i + pat@.len() <= s@.len(),
    ensures
        r == occurs_at(s@, pat@, i as int),
{
    let n: usize = s.len();
    let mut k: usize = 0;
    while k < pat.len()
        invariant
            k <= pat@.len(),
            n == s@.len(),
            i + pat@.len() <= s@.len(),
            forall|j: int| 0 <= j < k ==> s@[i + j] == pat@[j],
        decreases pat@.len() - k,
    {
        if s[i + k] != pat[k] {
            assert(s@.subrange(i as int, i + pat@.len())[k as int] != pat@[k as int]);
            return false;
        }
        k += 1;
    }
    assert(s@.subrange(i as int, i + pat@.len()) == pat@);
    true
}

/// The first index from `from` on at which `pat` occurs in `s`.
pub fn find_chars(s: &Vec<char>, pat: &Vec<char>, from: usize) -> (r: Option<usize>)
    ensures
        match r {
            Some(i) => find_from(s@, pat@, from as int) == Some(i as int),
            None => find_from(s@, pat@, from as int) is None,
        },
{
    let n: usize = s.len();
    let m: usize = pat.len();
    let mut i: usize = from;
    while i <= n && m <= n - i
        invariant
            n == s@.len(),
            m == pat@.len(),
            find_from(s@, pat@, from as int) == find_from(s@, pat@, i as int),
        decreases n + 1 - i,
    {
        if matches_at(s, pat, i) {
            return Some(i);
        }
        assert(m > 0) by {
            if m == 0 {
                assert(s@.subrange(i as int, i as int) == pat@);
            }
        }
        i += 1;
    }
    None
}

/// Whether `pat` occurs in `s`.
pub fn str_contains(s: &str, pat: &str) -> (r: bool)
    ensures
        r == contains_text(s@, pat@),
{
    let found = find_chars(&chars_of(s), &chars_of(pat), 0);
    proof {
        lemma_find_from(s@, pat@, 0);
    }
    found.is_some()
}

/// What is left of `s` behind `prefix`, if `s` begins with it.
pub fn strip_prefix(s: &str, prefix: &str) -> (r: Option<String>)
    ensures
        optional_text(r) == without_prefix(s@, prefix@),
{
    let text = chars_of(s);
    let pat = chars_of(prefix);
    if pat.len() > text.len() {
        return None;
    }
    if matches_at(&text, &pat, 0) {
        assert(s@.subrange(pat@.len() as int, text@.len() as int) == s@.skip(pat@.len() as int));
        Some(slice_chars(s, pat.len(), text.len()))
    } else {
        assert(!prefix@.is_prefix_of(s@)) by {
            if prefix@.is_prefix_of(s@) {
                assert(s@.subrange(0, pat@.len() as int) == pat@);
            }
        }
        None
    }
}

/// Whether a character has the Unicode property White_Space.
pub fn is_white_space(c: char) -> (r: bool)
    ensures
        r == white_space(c),
{
    ('\u{9}' <= c && c <= '\u{d}') || c == '\u{20}' || c == '\u{85}' || c == '\u{a0}' || c
        == '\u{1680}' || ('\u{2000}' <= c && c <= '\u{200a}') || c == '\u{2028}' || c == '\u{2029}'
        || c == '\u{202f}' || c == '\u{205f}' || c == '\u{3000}'
}

/// `s` without the white space at either end.
pub fn trim(s: &str) -> (r: String)
    ensures
        r@ == trimmed(s@),
{
    let text = chars_of(s);
    let n: usize = text.len();
    let mut from: usize = 0;
    assert(s@.skip(0) == s@);
    while from < n && is_white_space(text[from])
        invariant
            from <= n,
            n == text@.len(),
            text@ == s@,
            trimmed_start(s@) == trimmed_start(s@.skip(from as int)),
        decreases n - from,
    {
        assert(s@.skip(from as int).skip(1) == s@.skip(from + 1));
        from += 1;
    }
    let mut to: usize = n;
    assert(s@.skip(from as int) == s@.subrange(from as int, n as int));
    while to > from && is_white_space(text[to - 1])
        invariant
            from <= to <= n,
            n == text@.len(),
            text@ == s@,
            trimmed(s@) == trimmed_end(s@.subrange(from as int, to as int)),
        decreases to,
    {
        assert(s@.subrange(from as int, to as int).drop_last() == s@.subrange(
            from as int,
            to - 1,
        ));
        to -= 1;
    }
    slice_chars(s, from, to)
}

/// `s` without the run of `c` at its end.
pub fn trim_end_matches(s: &str, c: char) -> (r: String)
    ensures
        r@ == without_trailing(s@, c),
{
    let text = chars_of(s);
    let mut to: usize = text.len();
    assert(s@.subrange(0, to as int) == s@);
    while to > 0 && text[to - 1] == c
        invariant
            to <= text@.len(),
            text@ == s@,
            without_trailing(s@, c) == without_trailing(s@.subrange(0, to as int), c),
        decreases to,
    {
        assert(s@.subrange(0, to as int).drop_last() == s@.subrange(0, to - 1));
        to -= 1;
    }
    slice_chars(s, 0, to)
}

/// The parts one after the other, with `sep` between neighbours.
pub fn join(parts: &Vec<String>, sep: &str) -> (r: String)
    ensures
        r@ == joined(text_views(parts@), sep@),
{
    let ghost all = text_views(parts@);
    let mut r = String::new();
    let mut i: usize = 0;
    assert(all.take(0) == Seq::<Seq<char>>::empty());
    while i < parts.len()
        invariant
            i <= parts@.len(),
            all == text_views(parts@),
            r@ == joined(all.take(i as int), sep@),
        decreases parts@.len() - i,
    {
        proof {
            assert(all.take(i + 1).drop_last() == all.take(i as int));
            assert(all.take(i + 1).last() == parts@[i as int]@);
        }
        if i > 0 {
            r.append(sep);
        }
        r.append(parts[i].as_str());
        i += 1;
    }
    assert(all.take(i as int) == all);
    r
}

/// The lines of a text.
pub fn lines(s: &str) -> (r: Vec<String>)
    ensures
        text_views(r@) == text_lines(s@),
{
    let text = chars_of(s);
    let n: usize = text.len();
    let newline: Vec<char> = vec!['\n'];
    let mut r: Vec<String> = Vec::new();
    let mut from: usize = 0;
    assert(newline@ == seq!['\n']);
    assert(s@.skip(0) == s@);
    assert(text_views(r@) == Seq::<Seq<char>>::empty());
    assert(text_views(r@) + text_lines(s@.skip(0)) == text_lines(s@));
    while from < n
        invariant
            from <= n,
            n == text@.len(),
            text@ == s@,
            newline@ == seq!['\n'],
            text_views(r@) + text_lines(s@.skip(from as int)) == text_lines(s@),
        decreases n - from,
    {
        let ghost rest = s@.skip(from as int);
        let ghost before = text_views(r@);
        let found = find_chars(&text, &newline, from);
        proof {
            lemma_find_from_suffix(s@, newline@, from as int);
            lemma_find_from(s@, newline@, from as int);
        }
        match found {
            Some(end) => {
                let mut to: usize = end;
                assert(s@.subrange(from as int, end as int) == rest.take(end - from));
                if to > from && text[to - 1] == '\r' {
                    to -= 1;
                    assert(s@.subrange(from as int, to as int) == rest.take(
                        end - from,
                    ).drop_last());
                }
                r.push(slice_chars(s, from, to));
                proof {
                    let line = without_carriage_return(rest.take(end - from));
                    assert(text_views(r@) == before.push(line));
                    assert(rest.skip(end - from + 1) == s@.skip(end + 1));
                    assert(before.push(line) + text_lines(s@.skip(end + 1)) == before + (seq![line]
                        + text_lines(s@.skip(end + 1))));
                }
                from = end + 1;
            },
            None => {
                r.push(slice_chars(s, from, n));
                proof {
                    assert(s@.subrange(from as int, n as int) == rest);
                    assert(text_views(r@) == before.push(rest));
                    assert(before.push(rest) == before + seq![rest]);
                    assert(s@.skip(n as int) == Seq::<char>::empty());
                    lemma_find_from(Seq::<char>::empty(), seq!['\n'], 0);
                    assert(text_lines(s@.skip(n as int)) == Seq::<Seq<char>>::empty());
                }
                from = n;
            },
        }
    }
    proof {
        assert(s@.skip(from as int) == Seq::<char>::empty());
        lemma_find_from(Seq::<char>::empty(), seq!['\n'], 0);
        assert(text_lines(s@.skip(from as int)) == Seq::<Seq<char>>::empty());
    }
    r
}

/// The decimal notation of a number.
pub fn decimal_text(n: usize) -> (r: String)
    ensures
        r@ == decimal(n as nat),
    decreases n,
{
    let mut r = if n < 10 {
        String::new()
    } else {
        decimal_text(n / 10)
    };
    let d: usize = n % 10;
    proof {
        reveal_strlit("0");
        reveal_strlit("1");
        reveal_strlit("2");
        reveal_strlit("3");
        reveal_strlit("4");
        reveal_strlit("5");
        reveal_strlit("6");
        reveal_strlit("7");
        reveal_strlit("8");
        reveal_strlit("9");
    }
    let text = if d == 0 {
        "0"
    } else if d == 1 {
        "1"
    } else if d == 2 {
        "2"
    } else if d == 3 {
        "3"
    } else if d == 4 {
        "4"
    } else if d == 5 {
        "5"
    } else if d == 6 {
        "6"
    } else if d == 7 {
        "7"
    } else if d == 8 {
        "8"
    } else {
        "9"
    };
    assert(text@ == seq![digit(d as nat)]);
    r.append(text);
    r
}

} // verus!
