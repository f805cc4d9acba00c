//! Texts as sequences of characters: numbers in decimal, lines, lists
//! and the tests on texts that the other modules need.

use vstd::prelude::*;
use vstd::string::*;

verus! {

/// Appends one character to a string, by [`String::push`]: afterwards the
/// string is what it was, followed by that character.
#[verifier::external_body]
pub(crate) fn push_char(s: &mut String, c: char)
    ensures
        final(s)@ == old(s)@.push(c),
{
    s.push(c)
}

/// The characters of a string.
pub fn chars_of(s: &str) -> (v: Vec<char>)
    ensures
        v@ == s@,
{
    let mut v: Vec<char> = Vec::new();
    for c in it: s.chars()
        invariant
            it.seq() == s@,
            v@ == s@.take(it.index() as int),
    {
        v.push(c);
        assert(s@.take(it.index() + 1) =~= s@.take(it.index() as int).push(c));
    }
    assert(s@.take(s@.len() as int) =~= s@);
    v
}

/// The string made of the given characters.
pub fn string_of(chars: &[char]) -> (s: String)
    ensures
        s@ == chars@,
{
    let mut s = String::new();
    let mut i: usize = 0;
    while i < chars.len()
        invariant
            i <= chars.len(),
            s@ == chars@.take(i as int),
        decreases chars.len() - i,
    {
        push_char(&mut s, chars[i]);
        assert(chars@.take(i + 1) =~= chars@.take(i as int).push(chars@[i as int]));
        i += 1;
    }
    assert(chars@.take(chars@.len() as int) =~= chars@);
    s
}

/// Whether the string reads exactly as the literal.
pub fn text_is(s: &str, literal: &str) -> (b: bool)
    ensures
        b == (s@ == literal@),
{
    let a = String::from_str(s);
    let l = String::from_str(literal);
    a == l
}

/// The decimal digit of a number below ten.
pub open spec fn digit(d: int) -> char {
    if d == 0 {
        '0'
    } else if d == 1 {
        '1'
    } else if d == 2 {
        '2'
    } else if d == 3 {
        '3'
    } else if d == 4 {
        '4'
    } else if d == 5 {
        '5'
    } else if d == 6 {
        '6'
    } else if d == 7 {
        '7'
    } else if d == 8 {
        '8'
    } else {
        '9'
    }
}

/// A natural number in decimal, without leading zeros.
pub open spec fn decimal(n: nat) -> Seq<char>
    decreases n,
{
    if n < 10 {
        seq![digit(n as int)]
    } else {
        decimal(n / 10).push(digit((n % 10) as int))
    }
}

/// An integer in decimal, with a minus sign where it is negative.
pub open spec fn signed_decimal(i: int) -> Seq<char> {
    if i < 0 {
        seq!['-'] + decimal((-i) as nat)
    } else {
        decimal(i as nat)
    }
}

fn digit_char(d: u64) -> (c: char)
    requires
        d < 10,
    ensures
        c == digit(d as int),
{
    if d == 0 {
        '0'
    } else if d == 1 {
        '1'
    } else if d == 2 {
        '2'
    } else if d == 3 {
        '3'
    } else if d == 4 {
        '4'
    } else if d == 5 {
        '5'
    } else if d == 6 {
        '6'
    } else if d == 7 {
        '7'
    } else if d == 8 {
        '8'
    } else {
        '9'
    }
}

/// Appends a number in decimal.
pub fn push_decimal(s: &mut String, n: u64)
    ensures
        final(s)@ == old(s)@ + decimal(n as nat),
    decreases n,
{
    if n < 10 {
        push_char(s, digit_char(n));
        assert(s@ =~= old(s)@ + decimal(n as nat));
    } else {
        push_decimal(s, n / 10);
        push_char(s, digit_char(n % 10));
        assert(s@ =~= old(s)@ + decimal(n as nat));
    }
}

/// Appends a signed number in decimal.
pub fn push_signed_decimal(s: &mut String, i: i64)
    requires
        i > i64::MIN,
    ensures
        final(s)@ == old(s)@ + signed_decimal(i as int),
{
    if i < 0 {
        push_char(s, '-');
        let m: i64 = -i;
        let ghost mid = s@;
        push_decimal(s, m as u64);
        assert(s@ =~= old(s)@ + signed_decimal(i as int));
    } else {
        push_decimal(s, i as u64);
    }
}

/// Appends a text.
pub fn push_text(s: &mut String, t: &str)
    ensures
        final(s)@ == old(s)@ + t@,
{
    s.append(t);
}

/// A number in decimal, as a string of its own.
pub fn decimal_string(n: u64) -> (s: String)
    ensures
        s@ == decimal(n as nat),
{
    let mut s = String::new();
    push_decimal(&mut s, n);
    assert(s@ =~= decimal(n as nat));
    s
}

/// Whether `s` begins with `prefix`.
pub open spec fn starts_with(s: Seq<char>, prefix: Seq<char>) -> bool {
    prefix.len() <= s.len() && s.take(prefix.len() as int) == prefix
}

/// Whether `s` ends with `suffix`.
pub open spec fn ends_with(s: Seq<char>, suffix: Seq<char>) -> bool {
    suffix.len() <= s.len() && s.skip(s.len() - suffix.len()) == suffix
}

/// Whether the characters from `at` on begin with `prefix`.
pub fn has_prefix_at(s: &[char], at: usize, prefix: &[char]) -> (b: bool)
    requires
        at <= s.len(),
    ensures
        b == starts_with(s@.skip(at as int), prefix@),
{
    if prefix.len() > s.len() - at {
        return false;
    }
    let mut i: usize = 0;
    while i < prefix.len()
        invariant
            at <= s.len(),
            prefix.len() <= s.len() - at,
            i <= prefix.len(),
            forall|j: int| 0 <= j < i ==> s@[at + j] == prefix@[j],
        decreases prefix.len() - i,
    {
        if s[at + i] != prefix[i] {
            assert(s@.skip(at as int).take(prefix.len() as int)[i as int] != prefix@[i as int]);
            return false;
        }
        i += 1;
    }
    assert(s@.skip(at as int).take(prefix.len() as int) =~= prefix@);
    true
}

/// Whether the string begins with the literal.
pub fn text_starts_with(s: &str, prefix: &str) -> (b: bool)
    ensures
        b == starts_with(s@, prefix@),
{
    let sc = chars_of(s);
    let pc = chars_of(prefix);
    assert(sc@.skip(0) =~= sc@);
    has_prefix_at(sc.as_slice(), 0, pc.as_slice())
}

/// Whether the string ends with the literal.
pub fn text_ends_with(s: &str, suffix: &str) -> (b: bool)
    ensures
        b == ends_with(s@, suffix@),
{
    let sc = chars_of(s);
    let pc = chars_of(suffix);
    if pc.len() > sc.len() {
        return false;
    }
    let at = sc.len() - pc.len();
    let b = has_prefix_at(sc.as_slice(), at, pc.as_slice());
    assert(sc@.skip(at as int).take(pc.len() as int) =~= sc@.skip(at as int));
    b
}

/// The parts, with the separator between each two of them.
pub open spec fn join(parts: Seq<Seq<char>>, sep: Seq<char>) -> Seq<char>
    decreases parts.len(),
{
    if parts.len() == 0 {
        Seq::empty()
    } else if parts.len() == 1 {
        parts[0]
    } else {
        join(parts.drop_last(), sep) + sep + parts.last()
    }
}

/// The parts with a separator are the parts before the last with a
/// separator, then the separator and the last part.
pub proof fn lemma_join_step(parts: Seq<Seq<char>>, sep: Seq<char>, i: int)
    requires
        0 <= i < parts.len(),
    ensures
        join(parts.take(i + 1), sep) == if i == 0 {
            parts[0]
        } else {
            join(parts.take(i), sep) + sep + parts[i]
        },
{
    assert(parts.take(i + 1).drop_last() =~= parts.take(i));
}

/// The text with two spaces after each line break.
pub open spec fn indent(text: Seq<char>) -> Seq<char>
    decreases text.len(),
{
    if text.len() == 0 {
        Seq::empty()
    } else if text.last() == '\n' {
        indent(text.drop_last()) + seq!['\n', ' ', ' ']
    } else {
        indent(text.drop_last()).push(text.last())
    }
}

/// Numbers in square brackets, with a comma and a space between each two.
pub open spec fn number_list(items: Seq<nat>) -> Seq<char> {
    "["@ + join(Seq::new(items.len(), |i: int| decimal(items[i])), ", "@) + "]"@
}

/// Appends a text, with two spaces after each of its line breaks.
pub fn push_indented(s: &mut String, t: &str)
    ensures
        final(s)@ == old(s)@ + indent(t@),
{
    let cs = chars_of(t);
    let mut i: usize = 0;
    assert(cs@.take(0) =~= Seq::<char>::empty());
    assert(s@ =~= old(s)@ + indent(cs@.take(0)));
    while i < cs.len()
        invariant
            i <= cs.len(),
            s@ == old(s)@ + indent(cs@.take(i as int)),
        decreases cs.len() - i,
    {
        let ghost before = s@;
        assert(cs@.take(i + 1).drop_last() =~= cs@.take(i as int));
        if cs[i] == '\n' {
            push_char(s, '\n');
            push_char(s, ' ');
            push_char(s, ' ');
            assert(s@ =~= before + seq!['\n', ' ', ' ']);
        } else {
            push_char(s, cs[i]);
        }
        assert(s@ =~= old(s)@ + indent(cs@.take(i + 1)));
        i += 1;
    }
    assert(cs@.take(cs.len() as int) =~= cs@);
}

/// The numbers of a list of slots.
pub open spec fn nats_of_u8(items: Seq<u8>) -> Seq<nat> {
    Seq::new(items.len(), |i: int| items[i] as nat)
}

/// The numbers of a list of 32-bit values.
pub open spec fn nats_of_u32(items: Seq<u32>) -> Seq<nat> {
    Seq::new(items.len(), |i: int| items[i] as nat)
}

/// Appends a list of numbers in square brackets.
pub fn push_u8_list(s: &mut String, items: &Vec<u8>)
    ensures
        final(s)@ == old(s)@ + number_list(nats_of_u8(items@)),
{
    let ghost parts = Seq::new(items@.len(), |i: int| decimal(nats_of_u8(items@)[i]));
    push_char(s, '[');
    proof {
        reveal_strlit("[");
        reveal_strlit("]");
        reveal_strlit(", ");
    }
    assert(parts.take(0) =~= Seq::<Seq<char>>::empty());
    assert(s@ =~= old(s)@ + "["@ + join(parts.take(0), ", "@));
    let mut i: usize = 0;
    while i < items.len()
        invariant
            i <= items.len(),
            parts == Seq::new(items@.len(), |i: int| decimal(nats_of_u8(items@)[i])),
            s@ == old(s)@ + "["@ + join(parts.take(i as int), ", "@),
            ", "@ == seq![',', ' '],
        decreases items.len() - i,
    {
        let ghost before = s@;
        proof {
            lemma_join_step(parts, ", "@, i as int);
        }
        if i > 0 {
            push_char(s, ',');
            push_char(s, ' ');
            assert(s@ =~= before + ", "@);
        }
        push_decimal(s, items[i] as u64);
        assert(s@ =~= old(s)@ + "["@ + join(parts.take(i + 1), ", "@));
        i += 1;
    }
    assert(parts.take(items.len() as int) =~= parts);
    push_char(s, ']');
    assert(s@ =~= old(s)@ + number_list(nats_of_u8(items@)));
}

/// Appends a list of numbers in square brackets.
pub fn push_u32_list(s: &mut String, items: &Vec<u32>)
    ensures
        final(s)@ == old(s)@ + number_list(nats_of_u32(items@)),
{
    let ghost parts = Seq::new(items@.len(), |i: int| decimal(nats_of_u32(items@)[i]));
    push_char(s, '[');
    proof {
        reveal_strlit("[");
        reveal_strlit("]");
        reveal_strlit(", ");
    }
    assert(parts.take(0) =~= Seq::<Seq<char>>::empty());
    assert(s@ =~= old(s)@ + "["@ + join(parts.take(0), ", "@));
    let mut i: usize = 0;
    while i < items.len()
        invariant
            i <= items.len(),
            parts == Seq::new(items@.len(), |i: int| decimal(nats_of_u32(items@)[i])),
            s@ == old(s)@ + "["@ + join(parts.take(i as int), ", "@),
            ", "@ == seq![',', ' '],
        decreases items.len() - i,
    {
        let ghost before = s@;
        proof {
            lemma_join_step(parts, ", "@, i as int);
        }
        if i > 0 {
            push_char(s, ',');
            push_char(s, ' ');
            assert(s@ =~= before + ", "@);
        }
        push_decimal(s, items[i] as u64);
        assert(s@ =~= old(s)@ + "["@ + join(parts.take(i + 1), ", "@));
        i += 1;
    }
    assert(parts.take(items.len() as int) =~= parts);
    push_char(s, ']');
    assert(s@ =~= old(s)@ + number_list(nats_of_u32(items@)));
}

/// Different digits are different characters.
pub proof fn lemma_digit_injective(x: int, y: int)
    requires
        0 <= x < 10,
        0 <= y < 10,
        digit(x) == digit(y),
    ensures
        x == y,
{
}

/// Different numbers are written differently.
pub proof fn lemma_decimal_injective(a: nat, b: nat)
    requires
        decimal(a) == decimal(b),
    ensures
        a == b,
    decreases a,
{
    if a < 10 {
        assert(decimal(a) =~= seq![digit(a as int)]);
        if b >= 10 {
            lemma_decimal_len(b / 10);
            assert(decimal(b).len() == decimal(b / 10).len() + 1);
            assert(false);
        } else {
            assert(decimal(b) =~= seq![digit(b as int)]);
            assert(decimal(a)[0] == digit(a as int));
            assert(decimal(b)[0] == digit(b as int));
            lemma_digit_injective(a as int, b as int);
        }
    } else {
        if b < 10 {
            assert(decimal(b) =~= seq![digit(b as int)]);
            lemma_decimal_len(a / 10);
            assert(decimal(a).len() == decimal(a / 10).len() + 1);
            assert(false);
        } else {
            let x = decimal(a / 10);
            let y = decimal(b / 10);
            assert(decimal(a).drop_last() =~= x);
            assert(decimal(b).drop_last() =~= y);
            assert(decimal(a).last() == digit((a % 10) as int));
            assert(decimal(b).last() == digit((b % 10) as int));
            lemma_decimal_injective(a / 10, b / 10);
            lemma_digit_injective((a % 10) as int, (b % 10) as int);
        }
    }
}

/// A number is written with at least one digit.
pub proof fn lemma_decimal_len(n: nat)
    ensures
        decimal(n).len() >= 1,
    decreases n,
{
    if n >= 10 {
        lemma_decimal_len(n / 10);
    }
}

/// Whether two lists of characters are the same.
pub fn chars_eq(a: &[char], b: &[char]) -> (r: bool)
    ensures
        r == (a@ == b@),
{
    if a.len() != b.len() {
        return false;
    }
    let mut i: usize = 0;
    while i < a.len()
        invariant
            i <= a.len(),
            a.len() == b.len(),
            forall|j: int| 0 <= j < i ==> a@[j] == b@[j],
        decreases a.len() - i,
    {
        if a[i] != b[i] {
            return false;
        }
        i += 1;
    }
    assert(a@ =~= b@);
    true
}

/// The first `n` characters.
pub fn prefix_of(s: &[char], n: usize) -> (r: Vec<char>)
    requires
        n <= s.len(),
    ensures
        r@ == s@.take(n as int),
{
    let mut r: Vec<char> = Vec::new();
    let mut i: usize = 0;
    while i < n
        invariant
            i <= n <= s.len(),
            r@ == s@.take(i as int),
        decreases n - i,
    {
        r.push(s[i]);
        assert(s@.take(i + 1) =~= s@.take(i as int).push(s@[i as int]));
        i += 1;
    }
    r
}

/// The place of the first line break from `from` on, or the length of
/// the text where there is none.
pub open spec fn line_end(s: Seq<char>, from: int) -> int
    decreases s.len() - from,
{
    if from < 0 || from >= s.len() {
        s.len() as int
    } else if s[from] == '\n' {
        from
    } else {
        line_end(s, from + 1)
    }
}

/// A line without the carriage return before its line break.
pub open spec fn without_return(line: Seq<char>) -> Seq<char> {
    if line.len() > 0 && line.last() == '\r' {
        line.drop_last()
    } else {
        line
    }
}

/// The lines of a text from `from` on, without their line breaks. A line
/// break may be a line feed or a carriage return and a line feed. No line
/// follows the last line break.
pub open spec fn lines_from(s: Seq<char>, from: int) -> Seq<Seq<char>>
    decreases s.len() - from,
{
    if from < 0 || from >= s.len() {
        Seq::empty()
    } else {
        let end = line_end(s, from);
        if end < s.len() {
            proof {
                lemma_line_end(s, from);
            }
            seq![without_return(s.subrange(from, end))] + lines_from(s, end + 1)
        } else {
            seq![s.subrange(from, end)]
        }
    }
}

/// The lines of a text.
pub open spec fn lines_of(s: Seq<char>) -> Seq<Seq<char>> {
    lines_from(s, 0)
}

/// A line ends at or behind its start, and within the text.
pub proof fn lemma_line_end(s: Seq<char>, from: int)
    requires
        0 <= from <= s.len(),
    ensures
        from <= line_end(s, from) <= s.len(),
    decreases s.len() - from,
{
    if from < s.len() && s[from] != '\n' {
        lemma_line_end(s, from + 1);
    }
}

/// The lines of a text.
pub fn lines(text: &str) -> (r: Vec<String>)
    ensures
        r@.len() == lines_of(text@).len(),
        forall|i: int| 0 <= i < r@.len() ==> r@[i]@ == lines_of(text@)[i],
{
    let cs = chars_of(text);
    let mut out: Vec<String> = Vec::new();
    let mut from: usize = 0;
    let ghost mut done: Seq<Seq<char>> = Seq::empty();
    while from < cs.len()
        invariant
            from <= cs.len(),
            cs@ == text@,
            out@.len() == done.len(),
            forall|i: int| 0 <= i < out@.len() ==> out@[i]@ == done[i],
            lines_of(cs@) == done + lines_from(cs@, from as int),
        decreases cs.len() - from,
    {
        let mut end: usize = from;
        while end < cs.len() && cs[end] != '\n'
            invariant
                from <= end <= cs.len(),
                line_end(cs@, from as int) == line_end(cs@, end as int),
            decreases cs.len() - end,
        {
            end += 1;
        }
        let ghost rest = lines_from(cs@, from as int);
        if end < cs.len() {
            let stop = if end > from && cs[end - 1] == '\r' {
                end - 1
            } else {
                end
            };
            let line = string_of(slice_of(&cs, from, stop));
            proof {
                let whole = cs@.subrange(from as int, end as int);
                assert(without_return(whole) =~= cs@.subrange(from as int, stop as int));
                assert(done + rest =~= done.push(line@) + lines_from(cs@, end + 1));
                done = done.push(line@);
            }
            out.push(line);
            from = end + 1;
        } else {
            let line = string_of(slice_of(&cs, from, end));
            proof {
                assert(done + rest =~= done.push(line@) + lines_from(cs@, end as int));
                done = done.push(line@);
            }
            out.push(line);
            from = end;
        }
    }
    assert(lines_of(text@) =~= done);
    out
}

/// The characters from `from` up to `to`.
pub fn slice_of(v: &Vec<char>, from: usize, to: usize) -> (r: &[char])
    requires
        from <= to <= v.len(),
    ensures
        r@ == v@.subrange(from as int, to as int),
{
    vstd::slice::slice_subrange(v.as_slice(), from, to)
}

} // verus!
