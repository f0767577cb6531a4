//! The marker: the first line of a commit message, which names the change that the commit
//! holds. It is the only record of how far the migration has come.

use crate::lines::starts_with;
use crate::mercurial::MercurialError;
use crate::mercurial::MercurialFailure;
use crate::text::chars_of;
use crate::text::copy_of;
use crate::text::decimal;
use crate::text::digit_run;
use crate::text::digits_end;
use crate::text::lemma_decimal_reads_back;
use crate::text::lemma_digit_run_is;
use crate::text::number_of;
use crate::text::parse_number;
use crate::text::push_decimal;
use vstd::prelude::*;

verus! {

/// Whether `ch` is written into a message as it is: it is an ASCII character.
pub open spec fn is_plain(ch: char) -> bool {
    (ch as u32) < 0x80
}

/// The character of a hexadecimal digit, in lower case.
pub open spec fn hex_char_of(d: nat) -> char {
    if d < 10 {
        ((48 + d) as u8) as char
    } else {
        ((87 + d) as u8) as char
    }
}

/// Whether `ch` is a hexadecimal digit in lower case.
pub open spec fn is_hex(ch: char) -> bool {
    '0' <= ch <= '9' || 'a' <= ch <= 'f'
}

/// The value of a hexadecimal digit.
pub open spec fn hex_digit_of(ch: char) -> nat {
    if ch <= '9' {
        (ch as u32 - 48) as nat
    } else {
        (ch as u32 - 87) as nat
    }
}

/// How `n` is written in hexadecimal digits, without leading zeros.
pub open spec fn hex(n: nat) -> Seq<char>
    decreases n,
{
    if n < 16 {
        seq![hex_char_of(n)]
    } else {
        hex(n / 16).push(hex_char_of(n % 16))
    }
}

/// The number that a sequence of hexadecimal digits writes.
pub open spec fn hex_value(s: Seq<char>) -> nat
    decreases s.len(),
{
    if s.len() == 0 {
        0
    } else {
        hex_value(s.drop_last()) * 16 + hex_digit_of(s.last())
    }
}

/// How one character stands in a message: an ASCII character as itself, any other as a
/// backslash, `u`, and its code in hexadecimal between braces.
pub open spec fn escape_of(ch: char) -> Seq<char> {
    if is_plain(ch) {
        seq![ch]
    } else {
        seq!['\\', 'u', '{'] + hex(ch as nat) + seq!['}']
    }
}

/// How a text stands in a message: character by character.
pub open spec fn escaped(body: Seq<char>) -> Seq<char>
    decreases body.len(),
{
    if body.len() == 0 {
        Seq::empty()
    } else {
        escape_of(body[0]) + escaped(body.drop_first())
    }
}

/// The message of the commit that holds change `id` with the description `body`: the marker
/// line, then the description with all but ASCII escaped.
pub open spec fn message_of(id: u32, body: Seq<char>) -> Seq<char> {
    "change #"@ + decimal(id as nat) + seq!['\n'] + escaped(body)
}

/// Whether `s` begins with the escape of `ch`, a character that is written escaped.
pub open spec fn escapes(s: Seq<char>, ch: char) -> bool {
    !is_plain(ch) && escape_of(ch).is_prefix_of(s)
}

/// The text that `s` stands for: each escape read as its character, all else kept.
pub open spec fn unescaped(s: Seq<char>) -> Seq<char>
    decreases s.len(),
{
    if s.len() == 0 {
        Seq::empty()
    } else if exists|ch: char| escapes(s, ch) {
        let ch = choose|ch: char| escapes(s, ch);
        seq![ch] + unescaped(s.skip(escape_of(ch).len() as int))
    } else {
        seq![s[0]] + unescaped(s.drop_first())
    }
}

/// Whether `body` holds no text that reads as an escape: such a text would come back as one
/// character.
pub open spec fn literal_free(body: Seq<char>) -> bool {
    forall|i: int, ch: char| 0 <= i < body.len() ==> !#[trigger] escapes(body.skip(i), ch)
}

/// What the first line of a commit says of the last change: `Ok(None)` where it does not
/// begin with the marker, the number behind the marker up to the first character that is no
/// digit, or the error where no digit stands there or the number does not fit 32 bits.
pub open spec fn decoded(text: Seq<char>) -> Result<Option<u32>, MercurialFailure> {
    if !"change #"@.is_prefix_of(text) {
        Ok(None)
    } else {
        let rest = text.skip("change #"@.len() as int);
        let digits = rest.take(digit_run(rest) as int);
        if digits.len() == 0 {
            Err(
                MercurialFailure::ChangeParseError {
                    message: "cannot parse integer from empty string"@,
                },
            )
        } else {
            match number_of(digits) {
                Some(id) => Ok(Some(id)),
                None => Err(
                    MercurialFailure::ChangeParseError {
                        message: "number too large to fit in target type"@,
                    },
                ),
            }
        }
    }
}

/// Hexadecimal digits read back as the number they were written for.
pub proof fn lemma_hex_reads_back(n: nat)
    ensures
        hex(n).len() >= 1,
        forall|i: int| 0 <= i < hex(n).len() ==> is_hex(#[trigger] hex(n)[i]),
        hex_value(hex(n)) == n,
    decreases n,
{
    let s = hex(n);
    if n < 16 {
        assert(s.drop_last().len() == 0);
        assert(hex_value(s.drop_last()) == 0);
    } else {
        lemma_hex_reads_back(n / 16);
        assert(s.drop_last() == hex(n / 16));
        assert(s.last() == hex_char_of(n % 16));
        assert forall|i: int| 0 <= i < s.len() implies is_hex(#[trigger] s[i]) by {
            if i < s.len() - 1 {
                assert(s[i] == hex(n / 16)[i]);
            }
        }
    }
}

/// A text begins with the escape of one character at most.
pub proof fn lemma_escape_unique(s: Seq<char>, a: char, b: char)
    requires
        escapes(s, a),
        escapes(s, b),
    ensures
        a == b,
{
    let ha = hex(a as nat);
    let hb = hex(b as nat);
    lemma_hex_reads_back(a as nat);
    lemma_hex_reads_back(b as nat);
    let ea = escape_of(a);
    let eb = escape_of(b);
    assert(ea.len() == ha.len() + 4);
    assert(eb.len() == hb.len() + 4);
    assert forall|j: int| 0 <= j < ha.len() implies s[3 + j] == #[trigger] ha[j] by {
        assert(s.subrange(0, ea.len() as int)[3 + j] == ea[3 + j]);
    }
    assert forall|j: int| 0 <= j < hb.len() implies s[3 + j] == #[trigger] hb[j] by {
        assert(s.subrange(0, eb.len() as int)[3 + j] == eb[3 + j]);
    }
    let na = ha.len() as int;
    let nb = hb.len() as int;
    assert(s[3 + na] == '}') by {
        assert(s.subrange(0, ea.len() as int)[3 + na] == ea[3 + na]);
    }
    assert(s[3 + nb] == '}') by {
        assert(s.subrange(0, eb.len() as int)[3 + nb] == eb[3 + nb]);
    }
    if ha.len() < hb.len() {
        assert(is_hex(hb[ha.len() as int]));
    }
    if hb.len() < ha.len() {
        assert(is_hex(ha[hb.len() as int]));
    }
    assert(ha =~= hb);
}

/// A text without a backslash that begins what `body` is escaped to begins `body` too.
pub proof fn lemma_plain_prefix(p: Seq<char>, body: Seq<char>)
    requires
        p.is_prefix_of(escaped(body)),
        forall|i: int| 0 <= i < p.len() ==> #[trigger] p[i] != '\\',
    ensures
        p.is_prefix_of(body),
    decreases p.len(),
{
    if p.len() > 0 {
        let e = escaped(body);
        assert(e.subrange(0, p.len() as int)[0] == p[0]);
        assert(body.len() > 0);
        let rest = body.drop_first();
        assert(e == escape_of(body[0]) + escaped(rest));
        assert(is_plain(body[0])) by {
            if !is_plain(body[0]) {
                assert(e[0] == '\\');
            }
        }
        assert(e.drop_first() == escaped(rest));
        let q = p.drop_first();
        assert(q.is_prefix_of(escaped(rest))) by {
            assert(q =~= escaped(rest).subrange(0, q.len() as int)) by {
                assert forall|j: int| 0 <= j < q.len() implies q[j] == escaped(rest)[j] by {
                    assert(e.subrange(0, p.len() as int)[j + 1] == p[j + 1]);
                }
            }
        }
        assert forall|i: int| 0 <= i < q.len() implies #[trigger] q[i] != '\\' by {
            assert(q[i] == p[i + 1]);
        }
        lemma_plain_prefix(q, rest);
        assert(p =~= body.subrange(0, p.len() as int)) by {
            assert forall|j: int| 0 <= j < p.len() implies p[j] == body[j] by {
                if j > 0 {
                    assert(rest.subrange(0, q.len() as int)[j - 1] == q[j - 1]);
                }
            }
        }
    }
}

/// A text that holds nothing that reads as an escape comes back from its escaped form.
pub proof fn lemma_unescape_escaped(body: Seq<char>)
    requires
        literal_free(body),
    ensures
        unescaped(escaped(body)) == body,
    decreases body.len(),
{
    if body.len() > 0 {
        let c = body[0];
        let rest = body.drop_first();
        let e = escaped(body);
        assert(literal_free(rest)) by {
            assert forall|i: int, ch: char| 0 <= i < rest.len() implies !#[trigger] escapes(
                rest.skip(i),
                ch,
            ) by {
                assert(rest.skip(i) == body.skip(i + 1));
            }
        }
        lemma_unescape_escaped(rest);
        if is_plain(c) {
            assert forall|ch: char| !escapes(e, ch) by {
                if escapes(e, ch) {
                    let x = escape_of(ch);
                    lemma_hex_reads_back(ch as nat);
                    assert(e.subrange(0, x.len() as int)[0] == x[0]);
                    let p = x.drop_first();
                    assert(p.is_prefix_of(escaped(rest))) by {
                        assert(p =~= escaped(rest).subrange(0, p.len() as int)) by {
                            assert forall|j: int| 0 <= j < p.len() implies p[j] == escaped(
                                rest,
                            )[j] by {
                                assert(e.subrange(0, x.len() as int)[j + 1] == x[j + 1]);
                            }
                        }
                    }
                    assert forall|i: int| 0 <= i < p.len() implies #[trigger] p[i] != '\\' by {
                        if 2 <= i < p.len() - 1 {
                            assert(p[i] == hex(ch as nat)[i - 2]);
                        }
                    }
                    lemma_plain_prefix(p, rest);
                    assert(x =~= body.subrange(0, x.len() as int)) by {
                        assert forall|j: int| 0 <= j < x.len() implies x[j] == body[j] by {
                            if j > 0 {
                                assert(rest.subrange(0, p.len() as int)[j - 1] == p[j - 1]);
                            }
                        }
                    }
                    assert(body.skip(0) == body);
                    assert(escapes(body.skip(0), ch));
                }
            }
            assert(e.drop_first() == escaped(rest));
            assert(seq![c] + rest == body);
        } else {
            let x = escape_of(c);
            assert(x.is_prefix_of(e)) by {
                assert(x =~= e.subrange(0, x.len() as int));
            }
            assert(escapes(e, c));
            let found = choose|ch: char| escapes(e, ch);
            lemma_escape_unique(e, c, found);
            assert(e.skip(x.len() as int) == escaped(rest));
            assert(seq![c] + rest == body);
        }
    }
}

/// What a commit message says of the change is the change it was written for.
pub proof fn lemma_decode_message(id: u32, body: Seq<char>)
    ensures
        decoded(message_of(id, body)) == Ok::<Option<u32>, MercurialFailure>(Some(id)),
{
    reveal_strlit("change #");
    let text = message_of(id, body);
    let digits = decimal(id as nat);
    lemma_decimal_reads_back(id as nat);
    assert("change #"@.is_prefix_of(text)) by {
        assert("change #"@ =~= text.subrange(0, 8));
    }
    let rest = text.skip(8);
    assert(rest == digits + seq!['\n'] + escaped(body));
    assert forall|i: int| 0 <= i < digits.len() implies crate::text::is_digit(
        #[trigger] rest[i],
    ) by {
        assert(rest[i] == digits[i]);
    }
    assert(rest[digits.len() as int] == '\n');
    lemma_digit_run_is(rest, digits.len() as int);
    assert(rest.take(digits.len() as int) == digits);
}

/// The marker round trip. For every change number and every description, the message written
/// for them decodes to the number, and what stands behind the marker line unescapes to the
/// description, provided the description itself holds no text that reads as an escape (a
/// backslash, `u`, and the code of a character other than ASCII between braces).
pub proof fn marker_round_trip(id: u32, body: Seq<char>)
    requires
        literal_free(body),
    ensures
        decoded(message_of(id, body)) == Ok::<Option<u32>, MercurialFailure>(Some(id)),
        message_of(id, body).skip(("change #"@ + decimal(id as nat) + seq!['\n']).len() as int)
            == escaped(body),
        unescaped(escaped(body)) == body,
{
    lemma_decode_message(id, body);
    lemma_unescape_escaped(body);
}

/// `char::from_u32` of the standard library: the character with the code `code`, which
/// exists for every code up to 10FFFF that is no surrogate.
pub assume_specification[ char::from_u32 ](code: u32) -> (ch: Option<char>)
    ensures
        ch is Some <==> code <= 0xd7ff || 0xe000 <= code <= 0x10ffff,
        ch matches Some(c) ==> c as int == code,
;

/// The character of the hexadecimal digit `d`.
pub fn hex_char(d: u8) -> (ch: char)
    requires
        d < 16,
    ensures
        ch == hex_char_of(d as nat),
{
    if d < 10 {
        (48u8 + d) as char
    } else {
        (87u8 + d) as char
    }
}

/// Appends the hexadecimal digits of `n` to `out`.
pub fn push_hex(out: &mut String, n: u32)
    ensures
        final(out)@ == old(out)@ + hex(n as nat),
    decreases n,
{
    if n >= 16 {
        push_hex(out, n / 16);
    }
    out.push(hex_char((n % 16) as u8));
}

/// Appends `ch` to `out` as it stands in a message.
pub fn push_escape(out: &mut String, ch: char)
    ensures
        final(out)@ == old(out)@ + escape_of(ch),
{
    if (ch as u32) < 0x80 {
        out.push(ch);
    } else {
        out.push('\\');
        out.push('u');
        out.push('{');
        push_hex(out, ch as u32);
        out.push('}');
    }
    assert(out@ =~= old(out)@ + escape_of(ch));
}

/// Appends `body` to `out` as it stands in a message.
pub fn push_escaped(out: &mut String, body: &str)
    ensures
        final(out)@ == old(out)@ + escaped(body@),
{
    let chars = chars_of(body);
    let mut i: usize = 0;
    proof {
        assert(chars@.skip(0) == chars@);
    }
    while i < chars.len()
        invariant
            i <= chars.len(),
            chars@ == body@,
            out@ + escaped(chars@.skip(i as int)) == old(out)@ + escaped(body@),
        decreases chars.len() - i,
    {
        let ch = chars[i];
        let ghost before = out@;
        let ghost tail = escaped(chars@.skip(i + 1));
        proof {
            assert(chars@.skip(i as int).drop_first() == chars@.skip(i + 1));
            assert(escaped(chars@.skip(i as int)) == escape_of(ch) + tail);
        }
        push_escape(out, ch);
        proof {
            assert(before + escape_of(ch) + tail == before + (escape_of(ch) + tail));
        }
        i += 1;
    }
    proof {
        assert(escaped(chars@.skip(chars.len() as int)) == Seq::<char>::empty());
        assert(out@ + Seq::<char>::empty() == out@);
    }
}

/// The message of the commit that holds change `id` with the description `body`.
pub fn encode(id: u32, body: &str) -> (message: String)
    ensures
        message@ == message_of(id, body@),
{
    let mut message = copy_of("change #");
    push_decimal(&mut message, id as u64);
    message.push('\n');
    push_escaped(&mut message, body);
    message
}

/// Reads the first line of a commit for the change that the commit holds.
pub fn decode(text: &str) -> (found: Result<Option<u32>, MercurialError>)
    ensures
        match found {
            Ok(id) => decoded(text@) == Ok::<Option<u32>, MercurialFailure>(id),
            Err(error) => decoded(text@) == Err::<Option<u32>, MercurialFailure>(error@),
        },
{
    let chars = chars_of(text);
    if !starts_with(&chars, "change #") {
        return Ok(None);
    }
    proof {
        reveal_strlit("change #");
    }
    let end = digits_end(&chars, 8);
    proof {
        let rest = chars@.skip(8);
        assert(rest.take(digit_run(rest) as int) == chars@.subrange(8, end as int));
    }
    if end == 8 {
        return Err(MercurialError::change_parse_error("cannot parse integer from empty string"));
    }
    match parse_number(&chars, 8, end) {
        Some(id) => Ok(Some(id)),
        None => Err(MercurialError::change_parse_error("number too large to fit in target type")),
    }
}

/// The first hexadecimal digit of a number that is not zero is not zero, and a number of
/// 24 bits has six digits at most.
pub proof fn lemma_hex_shape(n: nat)
    requires
        n >= 1,
    ensures
        hex(n)[0] != '0',
        n <= 0xff_ffff ==> hex(n).len() <= 6,
        n <= 0xf_ffff ==> hex(n).len() <= 5,
        n <= 0xffff ==> hex(n).len() <= 4,
        n <= 0xfff ==> hex(n).len() <= 3,
        n <= 0xff ==> hex(n).len() <= 2,
    decreases n,
{
    lemma_hex_reads_back(n);
    if n >= 16 {
        lemma_hex_shape(n / 16);
        lemma_hex_reads_back(n / 16);
        assert(hex(n)[0] == hex(n / 16)[0]);
    }
}

/// Hexadecimal digits without a leading zero are how their number is written.
pub proof fn lemma_hex_canonical(digits: Seq<char>)
    requires
        digits.len() >= 1,
        forall|i: int| 0 <= i < digits.len() ==> is_hex(#[trigger] digits[i]),
        digits[0] != '0',
    ensures
        hex(hex_value(digits)) == digits,
        hex_value(digits) >= 1,
    decreases digits.len(),
{
    let front = digits.drop_last();
    let last = digits.last();
    assert(hex_char_of(hex_digit_of(last)) == last);
    assert(hex_digit_of(last) < 16);
    if front.len() == 0 {
        assert(hex_value(front) == 0);
        assert(last == digits[0]);
        assert(hex(hex_value(digits)) =~= digits);
    } else {
        assert(front[0] == digits[0]);
        assert forall|i: int| 0 <= i < front.len() implies is_hex(#[trigger] front[i]) by {
            assert(front[i] == digits[i]);
        }
        lemma_hex_canonical(front);
        let n = hex_value(digits);
        assert(n == hex_value(front) * 16 + hex_digit_of(last));
        assert(n / 16 == hex_value(front));
        assert(n % 16 == hex_digit_of(last));
        assert(hex(n) == hex(n / 16).push(hex_char_of(n % 16)));
        assert(front.push(last) =~= digits);
    }
}

/// What a text that begins with the escape of `ch` looks like.
pub proof fn lemma_escape_shape(s: Seq<char>, ch: char)
    requires
        escapes(s, ch),
    ensures
        s.len() >= hex(ch as nat).len() + 4,
        s[0] == '\\' && s[1] == 'u' && s[2] == '{',
        1 <= hex(ch as nat).len() <= 6,
        forall|k: int|
            0 <= k < hex(ch as nat).len() ==> #[trigger] hex(ch as nat)[k] == s[3 + k] && is_hex(
                s[3 + k],
            ),
        s[3 + hex(ch as nat).len() as int] == '}',
        s[3] != '0',
        hex_value(hex(ch as nat)) == ch as nat,
        escape_of(ch).len() == hex(ch as nat).len() + 4,
        0x80 <= ch as nat <= 0xd7ff || 0xe000 <= ch as nat <= 0x10ffff,
{
    let h = hex(ch as nat);
    let e = escape_of(ch);
    lemma_hex_reads_back(ch as nat);
    lemma_hex_shape(ch as nat);
    assert(e.len() == h.len() + 4);
    assert forall|k: int| 0 <= k < e.len() implies s[k] == e[k] by {
        assert(s.subrange(0, e.len() as int)[k] == e[k]);
    }
    assert(e[0] == '\\' && e[1] == 'u' && e[2] == '{');
    assert forall|k: int| 0 <= k < h.len() implies #[trigger] h[k] == s[3 + k] && is_hex(
        s[3 + k],
    ) by {
        assert(e[3 + k] == h[k]);
    }
    assert(e[3 + h.len() as int] == '}');
    assert(e[3] == h[0]);
}

/// Whether `ch` is a hexadecimal digit in lower case, and its value if it is one.
pub fn hex_digit(ch: char) -> (digit: Option<u8>)
    ensures
        digit is Some <==> is_hex(ch),
        digit matches Some(d) ==> d == hex_digit_of(ch) && d < 16,
{
    if ch >= '0' && ch <= '9' {
        Some((ch as u32 - 48) as u8)
    } else if ch >= 'a' && ch <= 'f' {
        Some((ch as u32 - 87) as u8)
    } else {
        None
    }
}

/// The character whose escape stands in `chars` at `from`, with the length of the escape, or
/// `None` where no escape stands there.
pub fn read_escape(chars: &Vec<char>, from: usize) -> (found: Option<(char, usize)>)
    requires
        from <= chars.len(),
    ensures
        match found {
            Some((ch, length)) => escapes(chars@.skip(from as int), ch) && length == escape_of(
                ch,
            ).len() && from + length <= chars.len(),
            None => forall|ch: char| !escapes(chars@.skip(from as int), ch),
        },
{
    let ghost s = chars@.skip(from as int);
    if chars.len() - from < 5 || chars[from] != '\\' || chars[from + 1] != 'u' || chars[from + 2]
        != '{' {
        proof {
            assert forall|ch: char| !escapes(s, ch) by {
                if escapes(s, ch) {
                    lemma_escape_shape(s, ch);
                }
            }
        }
        return None;
    }
    let start: usize = from + 3;
    let mut end: usize = start;
    let mut value: u32 = 0;
    while end < chars.len() && end - start < 7 && hex_digit(chars[end]).is_some()
        invariant
            start == from + 3,
            start <= end <= chars.len(),
            end - start <= 7,
            s == chars@.skip(from as int),
            forall|k: int| 0 <= k < end - start ==> is_hex(#[trigger] s[3 + k]),
            end - start <= 6 ==> value == hex_value(s.subrange(3, 3 + (end - start))),
            end - start <= 6 ==> value <= 0xff_ffff,
            end - start <= 5 ==> value <= 0xf_ffff,
            end - start <= 4 ==> value <= 0xffff,
            end - start <= 3 ==> value <= 0xfff,
            end - start <= 2 ==> value <= 0xff,
            end - start <= 1 ==> value <= 0xf,
            end - start == 0 ==> value == 0,
        decreases chars.len() - end,
    {
        let digit = hex_digit(chars[end]).unwrap();
        proof {
            let before = s.subrange(3, 3 + (end - start));
            let after = s.subrange(3, 3 + (end - start) + 1);
            assert(after.drop_last() == before);
            assert(after.last() == chars@[end as int]);
        }
        if end - start < 6 {
            value = value * 16 + digit as u32;
        }
        end += 1;
    }
    let ghost count = end - start;
    let ghost digits = s.subrange(3, 3 + count);
    if end == start || end - start > 6 || end >= chars.len() || chars[end] != '}' || chars[start]
        == '0' || value < 0x80 {
        proof {
            assert forall|ch: char| !escapes(s, ch) by {
                if escapes(s, ch) {
                    lemma_escape_shape(s, ch);
                    let h = hex(ch as nat);
                    if h.len() < count {
                        assert(is_hex(s[3 + h.len() as int]));
                    } else if h.len() > count {
                        assert(h[count] == s[3 + count]);
                        assert(s[3 + count] == chars@[end as int]);
                    } else {
                        assert(digits =~= h) by {
                            assert forall|k: int| 0 <= k < count implies digits[k] == h[k] by {
                                assert(h[k] == s[3 + k]);
                            }
                        }
                        assert(s[3 + count] == chars@[end as int]);
                        assert(s[3] == chars@[start as int]);
                    }
                }
            }
        }
        return None;
    }
    match char::from_u32(value) {
        None => {
            proof {
                assert forall|ch: char| !escapes(s, ch) by {
                    if escapes(s, ch) {
                        lemma_escape_shape(s, ch);
                        let h = hex(ch as nat);
                        if h.len() < count {
                            assert(is_hex(s[3 + h.len() as int]));
                        } else if h.len() > count {
                            assert(h[count] == s[3 + count]);
                            assert(s[3 + count] == chars@[end as int]);
                        } else {
                            assert(digits =~= h) by {
                                assert forall|k: int| 0 <= k < count implies digits[k]
                                    == h[k] by {
                                    assert(h[k] == s[3 + k]);
                                }
                            }
                        }
                    }
                }
            }
            None
        },
        Some(ch) => {
            proof {
                assert forall|i: int| 0 <= i < digits.len() implies is_hex(#[trigger] digits[i]) by {
                    assert(digits[i] == s[3 + i]);
                }
                assert(digits[0] == chars@[start as int]);
                lemma_hex_canonical(digits);
                assert(ch as nat == hex_value(digits));
                let e = escape_of(ch);
                assert(e =~= s.subrange(0, e.len() as int)) by {
                    assert(e.len() == count + 4);
                    assert forall|k: int| 0 <= k < e.len() implies e[k] == s[k] by {
                        if 3 <= k < 3 + count {
                            assert(e[k] == digits[k - 3]);
                        }
                        if k == 3 + count {
                            assert(s[k] == chars@[end as int]);
                        }
                    }
                }
            }
            Some((ch, end + 1 - from))
        },
    }
}

/// The text that `text` stands for: each escape read as its character, all else kept.
pub fn unescape(text: &str) -> (body: String)
    ensures
        body@ == unescaped(text@),
{
    let chars = chars_of(text);
    let mut body = String::new();
    let mut i: usize = 0;
    proof {
        assert(chars@.skip(0) == chars@);
    }
    while i < chars.len()
        invariant
            i <= chars.len(),
            chars@ == text@,
            body@ + unescaped(chars@.skip(i as int)) == unescaped(text@),
        decreases chars.len() - i,
    {
        let ghost rest = chars@.skip(i as int);
        let ghost before = body@;
        match read_escape(&chars, i) {
            Some((ch, length)) => {
                proof {
                    let found = choose|c: char| escapes(rest, c);
                    lemma_escape_unique(rest, ch, found);
                    assert(rest.skip(length as int) == chars@.skip(i + length));
                    assert(before.push(ch) + unescaped(chars@.skip(i + length)) == before + (
                    seq![ch] + unescaped(chars@.skip(i + length))));
                    lemma_escape_shape(rest, ch);
                }
                body.push(ch);
                i += length;
            },
            None => {
                proof {
                    assert(rest.drop_first() == chars@.skip(i + 1));
                    assert(rest[0] == chars@[i as int]);
                    assert(before.push(rest[0]) + unescaped(chars@.skip(i + 1)) == before + (
                    seq![rest[0]] + unescaped(chars@.skip(i + 1))));
                }
                body.push(chars[i]);
                i += 1;
            },
        }
    }
    proof {
        assert(unescaped(chars@.skip(chars.len() as int)) == Seq::<char>::empty());
        assert(body@ + Seq::<char>::empty() == body@);
    }
    body
}

} // verus!
