//! Lines, prefixes and surrounding white space of a text, over its characters.

use vstd::prelude::*;

verus! {

/// The index of the first line feed of `s`, or the length of `s` where it holds none.
pub open spec fn line_end(s: Seq<char>) -> nat
    decreases s.len(),
{
    if s.len() > 0 && s[0] != '\n' {
        1 + line_end(s.drop_first())
    } else {
        0
    }
}

/// A line without the carriage return that stood before its line feed.
pub open spec fn chomp(line: Seq<char>) -> Seq<char> {
    if line.len() > 0 && line.last() == '\r' {
        line.drop_last()
    } else {
        line
    }
}

/// The lines of `s`. A line ends at a line feed, or at a carriage return followed by one;
/// neither belongs to the line. The last line needs no line feed, and a text that ends in one
/// has no empty line after it.
pub open spec fn lines(s: Seq<char>) -> Seq<Seq<char>>
    decreases s.len(),
{
    if s.len() == 0 {
        Seq::empty()
    } else if line_end(s) < s.len() {
        seq![chomp(s.take(line_end(s) as int))] + lines(s.skip(line_end(s) as int + 1))
    } else {
        seq![s]
    }
}

/// The character sequences that the vectors of `found` hold.
pub open spec fn rows(found: Seq<Vec<char>>) -> Seq<Seq<char>> {
    Seq::new(found.len(), |i: int| found[i]@)
}

/// The length of `s` up to and including its last line feed: zero where it holds none.
pub open spec fn whole_end(s: Seq<char>) -> nat
    decreases s.len(),
{
    if s.len() == 0 {
        0
    } else if s.last() == '\n' {
        s.len()
    } else {
        whole_end(s.drop_last())
    }
}

/// The lines that `s` holds whole: `s` up to and including its last line feed.
pub open spec fn whole_lines_of(s: Seq<char>) -> Seq<char> {
    s.take(whole_end(s) as int)
}

/// What is left of `s` behind its first `n` characters: nothing where `s` is shorter.
pub open spec fn behind(s: Seq<char>, n: nat) -> Seq<char> {
    if n <= s.len() {
        s.skip(n as int)
    } else {
        Seq::empty()
    }
}

/// White space as Unicode defines it (the property `White_Space`).
pub open spec fn is_space(ch: char) -> bool {
    let c = ch as u32;
    ||| 0x09 <= c <= 0x0d
    ||| c == 0x20
    ||| c == 0x85
    ||| c == 0xa0
    ||| c == 0x1680
    ||| 0x2000 <= c <= 0x200a
    ||| c == 0x2028
    ||| c == 0x2029
    ||| c == 0x202f
    ||| c == 0x205f
    ||| c == 0x3000
}

/// `s` without the white space at its start.
pub open spec fn trim_start(s: Seq<char>) -> Seq<char>
    decreases s.len(),
{
    if s.len() > 0 && is_space(s[0]) {
        trim_start(s.drop_first())
    } else {
        s
    }
}

/// `s` without the white space at its end.
pub open spec fn trim_end(s: Seq<char>) -> Seq<char>
    decreases s.len(),
{
    if s.len() > 0 && is_space(s.last()) {
        trim_end(s.drop_last())
    } else {
        s
    }
}

/// `s` without the white space at its start and at its end.
pub open spec fn trimmed(s: Seq<char>) -> Seq<char> {
    trim_end(trim_start(s))
}

/// The first line feed of `s` is at `k` where none stands before `k` and one stands at `k`, or
/// `s` ends there.
pub proof fn lemma_line_end_is(s: Seq<char>, k: int)
    requires
        0 <= k <= s.len(),
        forall|i: int| 0 <= i < k ==> #[trigger] s[i] != '\n',
        k < s.len() ==> s[k] == '\n',
    ensures
        line_end(s) == k,
    decreases s.len(),
{
    if k > 0 {
        let t = s.drop_first();
        assert forall|i: int| 0 <= i < k - 1 implies #[trigger] t[i] != '\n' by {
            assert(t[i] == s[i + 1]);
        }
        if k - 1 < t.len() {
            assert(t[k - 1] == s[k]);
        }
        lemma_line_end_is(t, k - 1);
    }
}

/// Trimming the start drops exactly the white space before the first other character.
pub proof fn lemma_trim_start_is(s: Seq<char>, k: int)
    requires
        0 <= k <= s.len(),
        forall|i: int| 0 <= i < k ==> is_space(#[trigger] s[i]),
        k < s.len() ==> !is_space(s[k]),
    ensures
        trim_start(s) == s.skip(k),
    decreases s.len(),
{
    if k > 0 {
        let t = s.drop_first();
        assert forall|i: int| 0 <= i < k - 1 implies is_space(#[trigger] t[i]) by {
            assert(t[i] == s[i + 1]);
        }
        if k - 1 < t.len() {
            assert(t[k - 1] == s[k]);
        }
        lemma_trim_start_is(t, k - 1);
        assert(t.skip(k - 1) == s.skip(k));
    } else {
        assert(s.skip(0) == s);
    }
}

/// Trimming the end drops exactly the white space behind the last other character.
pub proof fn lemma_trim_end_is(s: Seq<char>, k: int)
    requires
        0 <= k <= s.len(),
        forall|i: int| k <= i < s.len() ==> is_space(#[trigger] s[i]),
        k > 0 ==> !is_space(s[k - 1]),
    ensures
        trim_end(s) == s.take(k),
    decreases s.len(),
{
    if k < s.len() {
        let t = s.drop_last();
        assert forall|i: int| k <= i < t.len() implies is_space(#[trigger] t[i]) by {
            assert(t[i] == s[i]);
        }
        if k > 0 {
            assert(t[k - 1] == s[k - 1]);
        }
        lemma_trim_end_is(t, k);
        assert(t.take(k) == s.take(k));
    } else {
        assert(s.take(k) == s);
    }
}

/// The last line feed of `s` stands before `k` where `s` holds none from `k` on and one just
/// before `k`, or `k` is the start.
pub proof fn lemma_whole_end_is(s: Seq<char>, k: int)
    requires
        0 <= k <= s.len(),
        forall|i: int| k <= i < s.len() ==> #[trigger] s[i] != '\n',
        k > 0 ==> s[k - 1] == '\n',
    ensures
        whole_end(s) == k,
    decreases s.len(),
{
    if k < s.len() {
        let t = s.drop_last();
        assert forall|i: int| k <= i < t.len() implies #[trigger] t[i] != '\n' by {
            assert(t[i] == s[i]);
        }
        if k > 0 {
            assert(t[k - 1] == s[k - 1]);
        }
        lemma_whole_end_is(t, k);
    }
}

/// The lines that `text` holds whole: `text` up to and including its last line feed. What
/// stands behind it is the start of a line that did not arrive.
pub fn whole_lines(chars: &Vec<char>) -> (whole: Vec<char>)
    ensures
        whole@ == whole_lines_of(chars@),
{
    let mut end: usize = chars.len();
    while end > 0 && chars[end - 1] != '\n'
        invariant
            end <= chars.len(),
            forall|i: int| end <= i < chars.len() ==> #[trigger] chars@[i] != '\n',
        decreases end,
    {
        end -= 1;
    }
    proof {
        lemma_whole_end_is(chars@, end as int);
        assert(chars@.take(end as int) == chars@.subrange(0, end as int));
    }
    slice_of(chars, 0, end)
}

/// Whether `ch` is white space.
pub fn is_whitespace(ch: char) -> (space: bool)
    ensures
        space == is_space(ch),
{
    let c: u32 = ch as u32;
    (0x09 <= c && c <= 0x0d) || c == 0x20 || c == 0x85 || c == 0xa0 || c == 0x1680 || (0x2000 <= c
        && c <= 0x200a) || c == 0x2028 || c == 0x2029 || c == 0x202f || c == 0x205f || c == 0x3000
}

/// A copy of `chars[from..to]`.
pub fn slice_of(chars: &Vec<char>, from: usize, to: usize) -> (part: Vec<char>)
    requires
        from <= to <= chars.len(),
    ensures
        part@ == chars@.subrange(from as int, to as int),
{
    let mut part: Vec<char> = Vec::new();
    let mut i: usize = from;
    while i < to
        invariant
            from <= i <= to <= chars.len(),
            part@ == chars@.subrange(from as int, i as int),
        decreases to - i,
    {
        part.push(chars[i]);
        assert(chars@.subrange(from as int, i + 1) == chars@.subrange(from as int, i as int).push(
            chars@[i as int],
        ));
        i += 1;
    }
    part
}

/// What stands in `chars` behind its first `n` characters.
pub fn rest_of(chars: &Vec<char>, n: usize) -> (rest: Vec<char>)
    ensures
        rest@ == behind(chars@, n as nat),
{
    if n <= chars.len() {
        slice_of(chars, n, chars.len())
    } else {
        Vec::new()
    }
}

/// Whether `chars` begins with the characters of `prefix`.
pub fn starts_with(chars: &Vec<char>, prefix: &str) -> (found: bool)
    ensures
        found == prefix@.is_prefix_of(chars@),
{
    let wanted = crate::text::chars_of(prefix);
    if wanted.len() > chars.len() {
        return false;
    }
    let mut i: usize = 0;
    while i < wanted.len()
        invariant
            i <= wanted.len() <= chars.len(),
            wanted@ == prefix@,
            forall|j: int| 0 <= j < i ==> chars@[j] == wanted@[j],
        decreases wanted.len() - i,
    {
        if chars[i] != wanted[i] {
            proof {
                if prefix@.is_prefix_of(chars@) {
                    assert(chars@.subrange(0, wanted@.len() as int)[i as int] == wanted@[i as int]);
                }
            }
            return false;
        }
        i += 1;
    }
    proof {
        assert(chars@.subrange(0, wanted@.len() as int) =~= wanted@);
    }
    true
}

/// `chars` without the white space at its start and at its end.
pub fn trim(chars: &Vec<char>) -> (inner: Vec<char>)
    ensures
        inner@ == trimmed(chars@),
{
    let mut from: usize = 0;
    while from < chars.len() && is_whitespace(chars[from])
        invariant
            from <= chars.len(),
            forall|j: int| 0 <= j < from ==> is_space(#[trigger] chars@[j]),
        decreases chars.len() - from,
    {
        from += 1;
    }
    let mut to: usize = chars.len();
    while to > from && is_whitespace(chars[to - 1])
        invariant
            from <= to <= chars.len(),
            forall|j: int| to <= j < chars.len() ==> is_space(#[trigger] chars@[j]),
        decreases to,
    {
        to -= 1;
    }
    proof {
        let s = chars@;
        lemma_trim_start_is(s, from as int);
        let t = s.skip(from as int);
        assert forall|j: int| to - from <= j < t.len() implies is_space(#[trigger] t[j]) by {
            assert(t[j] == s[j + from]);
        }
        if to > from {
            assert(t[to - from - 1] == s[to - 1]);
        }
        lemma_trim_end_is(t, to - from);
        assert(t.take(to - from) == s.subrange(from as int, to as int));
    }
    slice_of(chars, from, to)
}

/// The lines of `chars`.
pub fn split_lines(chars: &Vec<char>) -> (found: Vec<Vec<char>>)
    ensures
        rows(found@) == lines(chars@),
{
    let mut found: Vec<Vec<char>> = Vec::new();
    let mut start: usize = 0;
    proof {
        assert(chars@.skip(0) == chars@);
        assert(rows(found@) + lines(chars@) == lines(chars@));
    }
    while start < chars.len()
        invariant
            start <= chars.len(),
            lines(chars@) == rows(found@) + lines(chars@.skip(start as int)),
        decreases chars.len() - start,
    {
        let ghost rest = chars@.skip(start as int);
        let ghost before = rows(found@);
        let mut end: usize = start;
        while end < chars.len() && chars[end] != '\n'
            invariant
                start <= end <= chars.len(),
                rest == chars@.skip(start as int),
                forall|j: int| 0 <= j < end - start ==> #[trigger] rest[j] != '\n',
            decreases chars.len() - end,
        {
            end += 1;
        }
        proof {
            lemma_line_end_is(rest, end - start);
        }
        if end < chars.len() {
            let stop: usize = if end > start && chars[end - 1] == '\r' {
                (end - 1) as usize
            } else {
                end
            };
            let line = slice_of(chars, start, stop);
            proof {
                let whole = rest.take(end - start);
                assert(whole == chars@.subrange(start as int, end as int));
                if end > start {
                    assert(whole.last() == chars@[end - 1]);
                }
                assert(line@ == chomp(whole)) by {
                    if end > start && chars@[end - 1] == '\r' {
                        assert(whole.drop_last() == chars@.subrange(start as int, stop as int));
                    }
                }
                assert(rest.skip(end - start + 1) == chars@.skip(end + 1));
            }
            found.push(line);
            proof {
                assert(rows(found@) =~= before.push(line@));
                assert(before + (seq![line@] + lines(chars@.skip(end + 1))) == before.push(line@)
                    + lines(chars@.skip(end + 1)));
            }
            start = end + 1;
        } else {
            let line = slice_of(chars, start, end);
            proof {
                assert(line@ == rest);
                assert(chars@.skip(end as int).len() == 0);
            }
            found.push(line);
            proof {
                assert(rows(found@) =~= before.push(line@));
                assert(before + seq![rest] == before.push(rest));
                assert(before.push(rest) + Seq::<Seq<char>>::empty() == before.push(rest));
            }
            start = end;
        }
    }
    proof {
        assert(chars@.skip(start as int).len() == 0);
        assert(rows(found@) + Seq::<Seq<char>>::empty() == rows(found@));
    }
    found
}

} // verus!
