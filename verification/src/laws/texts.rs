//! Searching, trimming, joining and splitting text.

use vstd::prelude::*;

use crate::types::ContentBlock;

verus! {

/// A pattern stands at an index exactly if each of its characters does.
pub proof fn law_occurrence(s: Seq<char>, pat: Seq<char>, i: int)
    ensures
        crate::text::occurs_at(s, pat, i) <==> {
            &&& 0 <= i
            &&& i + pat.len() <= s.len()
            &&& forall|k: int| 0 <= k < pat.len() ==> s[i + k] == #[trigger] pat[k]
        },
{
    if 0 <= i && i + pat.len() <= s.len() {
        let part = s.subrange(i, i + pat.len());
        if part == pat {
            assert forall|k: int| 0 <= k < pat.len() implies s[i + k] == #[trigger] pat[k] by {
                assert(part[k] == s[i + k]);
            }
        }
        if forall|k: int| 0 <= k < pat.len() ==> s[i + k] == #[trigger] pat[k] {
            assert(part =~= pat);
        }
    }
}

/// What is found is the first occurrence from an index on; nothing is found exactly
/// if there is none.
pub proof fn law_found_first(s: Seq<char>, pat: Seq<char>, i: int)
    requires
        0 <= i,
    ensures
        match crate::text::find_from(s, pat, i) {
            Some(k) => i <= k && crate::text::occurs_at(s, pat, k) && forall|j: int|
                i <= j < k ==> !crate::text::occurs_at(s, pat, j),
            None => forall|j: int| i <= j ==> !crate::text::occurs_at(s, pat, j),
        },
        crate::text::find(s, pat) == crate::text::find_from(s, pat, 0),
{
    crate::text::lemma_find_from(s, pat, i);
}

/// A text contains a pattern exactly if it is the pattern with something, or
/// nothing, before and behind it.
pub proof fn law_contains(s: Seq<char>, pat: Seq<char>)
    ensures
        crate::text::contains_text(s, pat) <==> exists|before: Seq<char>, behind: Seq<char>|
            s == #[trigger] (before + pat + behind),
{
    if crate::text::contains_text(s, pat) {
        let i = choose|i: int| crate::text::occurs_at(s, pat, i);
        let before = s.take(i);
        let behind = s.skip(i + pat.len());
        assert(s =~= before + s.subrange(i, i + pat.len()) + behind);
        assert(s == before + pat + behind);
    }
    if exists|before: Seq<char>, behind: Seq<char>| s == #[trigger] (before + pat + behind) {
        let (before, behind) = choose|before: Seq<char>, behind: Seq<char>|
            s == #[trigger] (before + pat + behind);
        let i = before.len() as int;
        assert(s.subrange(i, i + pat.len()) =~= pat);
        assert(crate::text::occurs_at(s, pat, i));
    }
}

/// What is left behind a prefix, put behind the prefix, is the text; nothing is left
/// exactly if the text does not begin with the prefix.
pub proof fn law_prefix(s: Seq<char>, prefix: Seq<char>, rest: Seq<char>)
    ensures
        crate::text::without_prefix(s, prefix) == Some(rest) <==> s == prefix + rest,
{
    if s == prefix + rest {
        assert(s.take(prefix.len() as int) =~= prefix);
        assert(prefix =~= s.subrange(0, prefix.len() as int));
        assert(s.skip(prefix.len() as int) =~= rest);
    }
    if crate::text::without_prefix(s, prefix) == Some(rest) {
        assert(s =~= prefix + rest);
    }
}

/// The characters that are white space, by their numbers.
pub proof fn law_white_space(c: char)
    ensures
        crate::text::white_space(c) <==> {
            let n = c as u32;
            ||| 9 <= n <= 13
            ||| n == 32
            ||| n == 133
            ||| n == 160
            ||| n == 5760
            ||| 8192 <= n <= 8202
            ||| n == 8232
            ||| n == 8233
            ||| n == 8239
            ||| n == 8287
            ||| n == 12288
        },
{
}

/// True of a text of which each character is white space.
pub open spec fn blank(s: Seq<char>) -> bool {
    forall|i: int| 0 <= i < s.len() ==> crate::text::white_space(#[trigger] s[i])
}

/// Only white space is trimmed at the start, and all of it.
proof fn lemma_trimmed_start(s: Seq<char>)
    ensures
        ({
            let t = crate::text::trimmed_start(s);
            &&& t.len() <= s.len()
            &&& t == s.skip(s.len() - t.len())
            &&& blank(s.take(s.len() - t.len()))
            &&& t.len() > 0 ==> !crate::text::white_space(t[0])
        }),
    decreases s.len(),
{
    if s.len() > 0 && crate::text::white_space(s[0]) {
        let rest = s.skip(1);
        lemma_trimmed_start(rest);
        let t = crate::text::trimmed_start(s);
        let n = s.len() - t.len();
        assert(rest.skip(n - 1) =~= s.skip(n));
        assert forall|i: int| 0 <= i < n implies crate::text::white_space(
            #[trigger] s.take(n)[i],
        ) by {
            if i > 0 {
                assert(rest.take(n - 1)[i - 1] == s.take(n)[i]);
            }
        }
    } else {
        assert(s.skip(0) =~= s);
    }
}

/// Only white space is trimmed at the end, and all of it.
proof fn lemma_trimmed_end(s: Seq<char>)
    ensures
        ({
            let t = crate::text::trimmed_end(s);
            &&& t.len() <= s.len()
            &&& t == s.take(t.len() as int)
            &&& blank(s.skip(t.len() as int))
            &&& t.len() > 0 ==> !crate::text::white_space(t.last())
        }),
    decreases s.len(),
{
    let t = crate::text::trimmed_end(s);
    let n = t.len() as int;
    if s.len() > 0 && crate::text::white_space(s.last()) {
        let rest = s.drop_last();
        lemma_trimmed_end(rest);
        assert(rest.take(n) =~= s.take(n));
        assert forall|i: int| 0 <= i < s.skip(n).len() implies crate::text::white_space(
            #[trigger] s.skip(n)[i],
        ) by {
            if i < rest.skip(n).len() {
                assert(rest.skip(n)[i] == s.skip(n)[i]);
            }
        }
    } else {
        assert(s.take(n) =~= s);
    }
}

/// A trimmed text is the text without white space before and behind it, and itself
/// neither begins nor ends in white space.
pub proof fn law_trimmed(s: Seq<char>)
    ensures
        ({
            let t = crate::text::trimmed(s);
            &&& exists|before: Seq<char>, behind: Seq<char>| #[trigger]
                blank(before) && #[trigger] blank(behind) && s == before + t + behind
            &&& t.len() > 0 ==> !crate::text::white_space(t[0]) && !crate::text::white_space(
                t.last(),
            )
        }),
{
    let u = crate::text::trimmed_start(s);
    let t = crate::text::trimmed(s);
    lemma_trimmed_start(s);
    lemma_trimmed_end(u);
    let before = s.take(s.len() - u.len());
    let behind = u.skip(t.len() as int);
    assert(s =~= before + u);
    assert(u =~= t + behind);
    assert(s =~= before + t + behind);
    assert(blank(before));
    assert(blank(behind));
    if t.len() > 0 {
        assert(t[0] == u[0]);
    }
}

/// What stands before the run of a character at the end: the text is that and the
/// run, and it does not end in the character.
pub proof fn law_without_trailing(s: Seq<char>, c: char)
    ensures
        ({
            let t = crate::text::without_trailing(s, c);
            &&& t.len() <= s.len()
            &&& s == t + Seq::new((s.len() - t.len()) as nat, |i: int| c)
            &&& t.len() > 0 ==> t.last() != c
        }),
{
    crate::text::lemma_without_trailing(s, c);
    let t = crate::text::without_trailing(s, c);
    assert(s =~= t + Seq::new((s.len() - t.len()) as nat, |i: int| c));
}

/// Joining: nothing comes of no parts, one part is itself, and between two lists of
/// parts stands one separator.
pub proof fn law_joined(a: Seq<Seq<char>>, b: Seq<Seq<char>>, part: Seq<char>, sep: Seq<char>)
    ensures
        crate::text::joined(Seq::empty(), sep).len() == 0,
        crate::text::joined(seq![part], sep) == part,
        a.len() > 0 && b.len() > 0 ==> crate::text::joined(a + b, sep) == crate::text::joined(a, sep)
            + sep + crate::text::joined(b, sep),
    decreases b.len(),
{
    if a.len() > 0 && b.len() > 0 {
        let before = b.drop_last();
        assert((a + b).drop_last() =~= a + before);
        if b.len() == 1 {
            assert(a + before =~= a);
            assert(b[0] == b.last());
        } else {
            law_joined(a, before, part, sep);
            let x = crate::text::joined(a, sep);
            let y = crate::text::joined(before, sep);
            assert(x + sep + y + sep + b.last() =~= x + sep + (y + sep + b.last()));
        }
    }
}

/// True of a text in which no line ends.
pub open spec fn one_line(s: Seq<char>) -> bool {
    forall|i: int| 0 <= i < s.len() ==> #[trigger] s[i] != '\n'
}

/// Splitting into lines: an empty text has none; a line whose end is missing is
/// itself; and a line that ends in a line feed, or in a carriage return and a line
/// feed, comes without its end before the lines of what follows.
pub proof fn law_lines(line: Seq<char>, rest: Seq<char>)
    requires
        one_line(line),
    ensures
        crate::text::text_lines(Seq::empty()).len() == 0,
        line.len() > 0 ==> crate::text::text_lines(line) == seq![line],
        line.len() == 0 || line.last() != '\r' ==> crate::text::text_lines(
            line + seq!['\n'] + rest,
        ) == seq![line] + crate::text::text_lines(rest),
        crate::text::text_lines(line + seq!['\r', '\n'] + rest) == seq![line]
            + crate::text::text_lines(rest),
{
    let newline = seq!['\n'];
    let none = Seq::<char>::empty();
    crate::text::lemma_find_from(none, newline, 0);
    crate::text::lemma_find_from(line, newline, 0);
    assert forall|j: int| !crate::text::occurs_at(line, newline, j) by {
        if crate::text::occurs_at(line, newline, j) {
            assert(line.subrange(j, j + 1)[0] == line[j]);
        }
    }
    lemma_first_line(line, rest);
    let with_return = line.push('\r');
    assert(one_line(with_return)) by {
        assert forall|i: int| 0 <= i < with_return.len() implies #[trigger] with_return[i]
            != '\n' by {
            if i < line.len() {
                assert(with_return[i] == line[i]);
            }
        }
    }
    lemma_first_line(with_return, rest);
    assert(with_return + newline + rest =~= line + seq!['\r', '\n'] + rest);
    assert(with_return.drop_last() =~= line);
}

/// The first line of a text, without a carriage return at its end.
proof fn lemma_first_line(line: Seq<char>, rest: Seq<char>)
    requires
        one_line(line),
    ensures
        crate::text::text_lines(line + seq!['\n'] + rest) == seq![
            crate::text::without_carriage_return(line),
        ] + crate::text::text_lines(rest),
{
    let newline = seq!['\n'];
    let s = line + newline + rest;
    let i = line.len() as int;
    assert(s.subrange(i, i + 1) =~= newline);
    assert forall|j: int| 0 <= j < i implies !crate::text::occurs_at(s, newline, j) by {
        if crate::text::occurs_at(s, newline, j) {
            assert(s.subrange(j, j + 1)[0] == s[j]);
            assert(s[j] == line[j]);
        }
    }
    crate::text::lemma_find_from_unique(s, newline, 0, i);
    assert(s.take(i) =~= line);
    assert(s.skip(i + 1) =~= rest);
}

/// The number that a text of decimal digits denotes.
pub open spec fn denoted(digits: Seq<char>) -> int
    decreases digits.len(),
{
    if digits.len() == 0 {
        0
    } else {
        10 * denoted(digits.drop_last()) + (digits.last() as u32 - '0' as u32)
    }
}

/// The decimal notation of a number consists of digits, denotes the number, and
/// does not begin with a zero unless it is the number zero.
pub proof fn law_decimal(n: nat)
    ensures
        ({
            let s = crate::text::decimal(n);
            &&& s.len() > 0
            &&& forall|i: int| 0 <= i < s.len() ==> '0' <= #[trigger] s[i] <= '9'
            &&& denoted(s) == n
            &&& n > 0 ==> s[0] != '0'
            &&& n == 0 ==> s == seq!['0']
        }),
    decreases n,
{
    let s = crate::text::decimal(n);
    let d = n % 10;
    assert(s.last() == (48 + d) as char);
    if n < 10 {
        assert(s.drop_last() =~= Seq::<char>::empty());
        reveal_with_fuel(denoted, 2);
    } else {
        law_decimal(n / 10);
        let before = crate::text::decimal(n / 10);
        assert(s.drop_last() =~= before);
        assert forall|i: int| 0 <= i < s.len() implies '0' <= #[trigger] s[i] <= '9' by {
            if i < before.len() {
                assert(s[i] == before[i]);
            }
        }
        assert(s[0] == before[0]);
    }
}

/// What each string of a list holds stands in its place.
pub proof fn law_lists_of_texts(list: Seq<String>, s: String, i: int)
    ensures
        crate::text::text_views(list).len() == list.len(),
        0 <= i < list.len() ==> crate::text::text_views(list)[i] == list[i]@,
        crate::text::optional_text(Some(s)) == Some(s@),
        crate::text::optional_text(None) is None,
{
}

/// The text of content blocks: a text block has its own, any other block has none,
/// and two lists of blocks one behind the other have their texts one behind the
/// other.
pub proof fn law_text_of_blocks(a: Seq<ContentBlock>, b: Seq<ContentBlock>, block: ContentBlock)
    ensures
        crate::types::blocks_text(Seq::empty()).len() == 0,
        crate::types::blocks_text(seq![block]) == match block {
            ContentBlock::Text { text } => text@,
            _ => Seq::empty(),
        },
        crate::types::blocks_text(a + b) == crate::types::blocks_text(a)
            + crate::types::blocks_text(b),
    decreases b.len(),
{
    reveal_with_fuel(crate::types::blocks_text, 2);
    assert(seq![block].drop_last() =~= Seq::<ContentBlock>::empty());
    if b.len() == 0 {
        assert(a + b =~= a);
    } else {
        assert((a + b).drop_last() =~= a + b.drop_last());
        law_text_of_blocks(a, b.drop_last(), block);
    }
}

} // verus!
