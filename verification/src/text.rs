//! Text as sequences of characters: the handful of operations that the rest of the crate needs,
//! each stated on the characters alone.

use vstd::prelude::*;

verus! {

/// `char::is_whitespace`: the characters with the Unicode property `White_Space`.
pub assume_specification[ char::is_whitespace ](c: char) -> (r: bool)
    ensures
        r == is_white(c),
;

/// `String::push`: one more character at the end.
pub assume_specification[ String::push ](s: &mut String, c: char)
    ensures
        final(s)@ == old(s)@.push(c),
;

/// The characters with the Unicode property `White_Space`.
pub open spec fn is_white(c: char) -> bool {
    ||| '\u{9}' <= c <= '\u{d}'
    ||| c == ' '
    ||| c == '\u{85}'
    ||| c == '\u{a0}'
    ||| c == '\u{1680}'
    ||| '\u{2000}' <= c <= '\u{200a}'
    ||| c == '\u{2028}'
    ||| c == '\u{2029}'
    ||| c == '\u{202f}'
    ||| c == '\u{205f}'
    ||| c == '\u{3000}'
}

/// The characters of a string.
pub fn chars_of(s: &str) -> (r: Vec<char>)
    ensures
        r@ == s@,
{
    let mut out: Vec<char> = Vec::new();
    for c in it: s.chars()
        invariant
            out@ == it.seq().take(it.index()),
            it.seq() == s@,
    {
        out.push(c);
    }
    out
}

/// The string made of the given characters.
pub fn string_of(cs: &[char]) -> (r: String)
    ensures
        r@ == cs@,
{
    let mut out = String::new();
    for i in 0..cs.len()
        invariant
            out@ == cs@.take(i as int),
    {
        out.push(cs[i]);
        proof {
            assert(cs@.take(i as int + 1) =~= cs@.take(i as int).push(cs@[i as int]));
        }
    }
    proof {
        assert(cs@.take(cs@.len() as int) =~= cs@);
    }
    out
}

/// The text without its leading white space.
pub open spec fn trim_start(s: Seq<char>) -> Seq<char>
    decreases s.len(),
{
    if s.len() > 0 && is_white(s[0]) {
        trim_start(s.drop_first())
    } else {
        s
    }
}

/// The text without its trailing white space.
pub open spec fn trim_end(s: Seq<char>) -> Seq<char>
    decreases s.len(),
{
    if s.len() > 0 && is_white(s.last()) {
        trim_end(s.drop_last())
    } else {
        s
    }
}

/// The text without leading and trailing white space.
pub open spec fn trimmed(s: Seq<char>) -> Seq<char> {
    trim_start(trim_end(s))
}

/// The text without the occurrences of `c` at its end.
pub open spec fn trim_end_of(s: Seq<char>, c: char) -> Seq<char>
    decreases s.len(),
{
    if s.len() > 0 && s.last() == c {
        trim_end_of(s.drop_last(), c)
    } else {
        s
    }
}

/// The position of the first `c`, or the length of the text where there is none.
pub open spec fn first_at(s: Seq<char>, c: char) -> int
    decreases s.len(),
{
    if s.len() == 0 || s[0] == c {
        0
    } else {
        1 + first_at(s.drop_first(), c)
    }
}

/// The position of the last `c`, or `-1` where there is none.
pub open spec fn last_at(s: Seq<char>, c: char) -> int
    decreases s.len(),
{
    if s.len() == 0 || s.last() == c {
        s.len() - 1
    } else {
        last_at(s.drop_last(), c)
    }
}

/// Whether `part` occurs in the text.
pub open spec fn has_part(s: Seq<char>, part: Seq<char>) -> bool {
    exists|i: int| is_part_at(s, part, i)
}

/// Whether `part` stands in the text at position `i`.
pub open spec fn is_part_at(s: Seq<char>, part: Seq<char>, i: int) -> bool {
    0 <= i && i + part.len() <= s.len() && s.subrange(i, i + part.len()) == part
}

/// The pieces between the separators, in order; one more than there are separators.
pub open spec fn split_on(s: Seq<char>, sep: char) -> Seq<Seq<char>>
    decreases s.len(),
{
    let i = first_at(s, sep);
    if 0 <= i < s.len() {
        seq![s.take(i)] + split_on(s.skip(i + 1), sep)
    } else {
        seq![s]
    }
}

/// An ASCII capital as its small letter; any other character as it is.
pub open spec fn lower_char(c: char) -> char {
    if 'A' <= c <= 'Z' {
        (c as u8 + 32) as char
    } else {
        c
    }
}

/// The text with its ASCII capitals made small.
pub open spec fn lower(s: Seq<char>) -> Seq<char> {
    s.map_values(|c: char| lower_char(c))
}

/// The decimal digit of a value below ten.
pub open spec fn digit(d: nat) -> char {
    ('0' as u8 + d) as char
}

/// A number in decimal, without leading zeros.
pub open spec fn decimal(n: nat) -> Seq<char>
    decreases n,
{
    if n < 10 {
        seq![digit(n)]
    } else {
        decimal(n / 10).push(digit(n % 10))
    }
}

/// How many bytes the character takes in UTF-8.
pub open spec fn char_width(c: char) -> nat {
    if c as u32 <= 0x7f {
        1
    } else if c as u32 <= 0x7ff {
        2
    } else if c as u32 <= 0xffff {
        3
    } else {
        4
    }
}

/// How many bytes the text takes in UTF-8.
pub open spec fn byte_len(s: Seq<char>) -> nat
    decreases s.len(),
{
    if s.len() == 0 {
        0
    } else {
        byte_len(s.drop_last()) + char_width(s.last())
    }
}

/// The longest beginning of the text that fits into `max` bytes.
pub open spec fn fit(s: Seq<char>, max: nat) -> Seq<char>
    decreases s.len(),
{
    if s.len() == 0 || byte_len(s) <= max {
        s
    } else {
        fit(s.drop_last(), max)
    }
}

/// The character sequences of a list of character vectors.
pub open spec fn views(v: Seq<Vec<char>>) -> Seq<Seq<char>> {
    v.map_values(|e: Vec<char>| e@)
}

pub proof fn lemma_first_at(s: Seq<char>, c: char)
    ensures
        0 <= first_at(s, c) <= s.len(),
        first_at(s, c) < s.len() ==> s[first_at(s, c)] == c,
        forall|j: int| 0 <= j < first_at(s, c) ==> s[j] != c,
        s.contains(c) <==> first_at(s, c) < s.len(),
    decreases s.len(),
{
    if s.len() > 0 && s[0] != c {
        let t = s.drop_first();
        lemma_first_at(t, c);
        assert forall|j: int| 0 <= j < first_at(s, c) implies s[j] != c by {
            if j > 0 {
                assert(t[j - 1] == s[j]);
            }
        }
        if s.contains(c) {
            let j = choose|j: int| 0 <= j < s.len() && s[j] == c;
            assert(t[j - 1] == c);
        }
    }
    if s.len() > 0 && s[0] == c {
        assert(s.contains(c));
    }
}

pub proof fn lemma_last_at(s: Seq<char>, c: char)
    ensures
        -1 <= last_at(s, c) < s.len(),
        last_at(s, c) >= 0 ==> s[last_at(s, c)] == c,
        forall|j: int| last_at(s, c) < j < s.len() ==> s[j] != c,
        s.contains(c) <==> last_at(s, c) >= 0,
    decreases s.len(),
{
    if s.len() > 0 && s.last() != c {
        let t = s.drop_last();
        lemma_last_at(t, c);
        assert forall|j: int| last_at(s, c) < j < s.len() implies s[j] != c by {
            if j < t.len() {
                assert(t[j] == s[j]);
            }
        }
        if s.contains(c) {
            let j = choose|j: int| 0 <= j < s.len() && s[j] == c;
            assert(t[j] == c);
        }
    }
}

/// Is the text this literal?
pub fn eq_lit(cs: &[char], lit: &str) -> (r: bool)
    ensures
        r == (cs@ == lit@),
{
    let l = chars_of(lit);
    eq_chars(cs, &l)
}

/// Are the two texts the same?
pub fn eq_chars(a: &[char], b: &[char]) -> (r: bool)
    ensures
        r == (a@ == b@),
{
    if a.len() != b.len() {
        return false;
    }
    for i in 0..a.len()
        invariant
            a@.len() == b@.len(),
            forall|j: int| 0 <= j < i ==> a@[j] == b@[j],
    {
        if a[i] != b[i] {
            return false;
        }
    }
    assert(a@ =~= b@);
    true
}

/// The text without leading and trailing white space.
pub fn trim(cs: &[char]) -> (r: &[char])
    ensures
        r@ == trimmed(cs@),
{
    let mut end: usize = cs.len();
    assert(cs@.take(end as int) =~= cs@);
    while end > 0 && cs[end - 1].is_whitespace()
        invariant
            end <= cs@.len(),
            trim_end(cs@) == trim_end(cs@.take(end as int)),
        decreases end,
    {
        proof {
            assert(cs@.take(end as int).drop_last() =~= cs@.take(end - 1));
        }
        end = end - 1;
    }
    let mut start: usize = 0;
    let ghost body = cs@.take(end as int);
    assert(body.skip(0) =~= body);
    while start < end && cs[start].is_whitespace()
        invariant
            start <= end <= cs@.len(),
            body == cs@.take(end as int),
            trim_start(body) == trim_start(body.skip(start as int)),
        decreases end - start,
    {
        proof {
            assert(body.skip(start as int).drop_first() =~= body.skip(start + 1));
        }
        start = start + 1;
    }
    assert(cs@.subrange(start as int, end as int) =~= body.skip(start as int));
    assert(trim_end(cs@) == body);
    vstd::slice::slice_subrange(cs, start, end)
}

/// The text without the occurrences of `c` at its end.
pub fn trim_end_char(cs: &[char], c: char) -> (r: &[char])
    ensures
        r@ == trim_end_of(cs@, c),
{
    let mut end: usize = cs.len();
    assert(cs@.take(end as int) =~= cs@);
    while end > 0 && cs[end - 1] == c
        invariant
            end <= cs@.len(),
            trim_end_of(cs@, c) == trim_end_of(cs@.take(end as int), c),
        decreases end,
    {
        proof {
            assert(cs@.take(end as int).drop_last() =~= cs@.take(end - 1));
        }
        end = end - 1;
    }
    assert(cs@.subrange(0, end as int) =~= cs@.take(end as int));
    vstd::slice::slice_subrange(cs, 0, end)
}

/// The text without its trailing white space.
pub fn trim_end_white(cs: &[char]) -> (r: &[char])
    ensures
        r@ == trim_end(cs@),
{
    let mut end: usize = cs.len();
    assert(cs@.take(end as int) =~= cs@);
    while end > 0 && cs[end - 1].is_whitespace()
        invariant
            end <= cs@.len(),
            trim_end(cs@) == trim_end(cs@.take(end as int)),
        decreases end,
    {
        proof {
            assert(cs@.take(end as int).drop_last() =~= cs@.take(end - 1));
        }
        end = end - 1;
    }
    assert(cs@.subrange(0, end as int) =~= cs@.take(end as int));
    vstd::slice::slice_subrange(cs, 0, end)
}

/// What follows the literal, where the text begins with it.
pub fn strip_prefix<'a>(cs: &'a [char], lit: &str) -> (r: Option<&'a [char]>)
    ensures
        r is Some <==> lit@.is_prefix_of(cs@),
        r matches Some(rest) ==> rest@ == cs@.skip(lit@.len() as int) && cs@ == lit@ + rest@,
{
    let l = chars_of(lit);
    if cs.len() < l.len() {
        return None;
    }
    let head = vstd::slice::slice_subrange(cs, 0, l.len());
    if eq_chars(head, &l) {
        let rest = vstd::slice::slice_subrange(cs, l.len(), cs.len());
        assert(cs@ =~= lit@ + rest@);
        assert(rest@ =~= cs@.skip(lit@.len() as int));
        Some(rest)
    } else {
        None
    }
}

/// What precedes the literal, where the text ends with it.
pub fn strip_suffix<'a>(cs: &'a [char], lit: &str) -> (r: Option<&'a [char]>)
    ensures
        r is Some <==> lit@.is_suffix_of(cs@),
        r matches Some(rest) ==> rest@ == cs@.take(cs@.len() - lit@.len()) && cs@ == rest@ + lit@,
{
    let l = chars_of(lit);
    if cs.len() < l.len() {
        return None;
    }
    let at: usize = cs.len() - l.len();
    let tail = vstd::slice::slice_subrange(cs, at, cs.len());
    if eq_chars(tail, &l) {
        let rest = vstd::slice::slice_subrange(cs, 0, at);
        assert(cs@ =~= rest@ + lit@);
        assert(rest@ =~= cs@.take(cs@.len() - lit@.len()));
        Some(rest)
    } else {
        None
    }
}

/// The position of the first `c`.
pub fn find_char(cs: &[char], c: char) -> (r: Option<usize>)
    ensures
        r == (if cs@.contains(c) { Some(first_at(cs@, c) as usize) } else { None }),
        r matches Some(i) ==> i < cs@.len() && i == first_at(cs@, c) && cs@[i as int] == c,
{
    proof {
        lemma_first_at(cs@, c);
    }
    for i in 0..cs.len()
        invariant
            forall|j: int| 0 <= j < i ==> cs@[j] != c,
            0 <= first_at(cs@, c) <= cs@.len(),
            first_at(cs@, c) < cs@.len() ==> cs@[first_at(cs@, c)] == c,
            forall|j: int| 0 <= j < first_at(cs@, c) ==> cs@[j] != c,
            cs@.contains(c) <==> first_at(cs@, c) < cs@.len(),
    {
        if cs[i] == c {
            return Some(i);
        }
    }
    None
}

/// The position of the last `c`.
pub fn rfind_char(cs: &[char], c: char) -> (r: Option<usize>)
    ensures
        r == (if cs@.contains(c) { Some(last_at(cs@, c) as usize) } else { None }),
        r matches Some(i) ==> i < cs@.len() && i == last_at(cs@, c) && cs@[i as int] == c,
{
    proof {
        lemma_last_at(cs@, c);
    }
    let mut i: usize = cs.len();
    while i > 0
        invariant
            i <= cs@.len(),
            forall|j: int| i <= j < cs@.len() ==> cs@[j] != c,
            -1 <= last_at(cs@, c) < cs@.len(),
            last_at(cs@, c) >= 0 ==> cs@[last_at(cs@, c)] == c,
            forall|j: int| last_at(cs@, c) < j < cs@.len() ==> cs@[j] != c,
            cs@.contains(c) <==> last_at(cs@, c) >= 0,
        decreases i,
    {
        i = i - 1;
        if cs[i] == c {
            return Some(i);
        }
    }
    None
}

/// Does `c` occur in the text?
pub fn contains_char(cs: &[char], c: char) -> (r: bool)
    ensures
        r == cs@.contains(c),
{
    find_char(cs, c).is_some()
}

/// Does the literal occur in the text?
pub fn contains_lit(cs: &[char], lit: &str) -> (r: bool)
    ensures
        r == has_part(cs@, lit@),
{
    let l = chars_of(lit);
    if cs.len() < l.len() {
        assert(forall|i: int| !is_part_at(cs@, lit@, i));
        return false;
    }
    let last: usize = cs.len() - l.len();
    let mut i: usize = 0;
    while i <= last
        invariant
            cs@.len() == cs.len(),
            l@ == lit@,
            last == cs@.len() - l@.len(),
            cs@.len() <= usize::MAX,
            i <= last + 1,
            forall|j: int| 0 <= j < i ==> !is_part_at(cs@, lit@, j),
        decreases last + 1 - i,
    {
        let piece = vstd::slice::slice_subrange(cs, i, i + l.len());
        if eq_chars(piece, &l) {
            assert(is_part_at(cs@, lit@, i as int));
            return true;
        }
        if i == last {
            assert(forall|j: int| !is_part_at(cs@, lit@, j));
            return false;
        }
        i = i + 1;
    }
    false
}

/// The pieces between the separators.
pub fn split(cs: &[char], sep: char) -> (r: Vec<Vec<char>>)
    ensures
        views(r@) == split_on(cs@, sep),
{
    let mut out: Vec<Vec<char>> = Vec::new();
    let mut start: usize = 0;
    proof {
        assert(cs@.skip(0) =~= cs@);
        assert(views(out@) + split_on(cs@, sep) =~= split_on(cs@, sep));
    }
    loop
        invariant
            start <= cs@.len(),
            views(out@) + split_on(cs@.skip(start as int), sep) == split_on(cs@, sep),
        decreases cs@.len() - start,
    {
        let rest = vstd::slice::slice_subrange(cs, start, cs.len());
        assert(rest@ =~= cs@.skip(start as int));
        let ghost before = out@;
        match find_char(rest, sep) {
            None => {
                proof {
                    lemma_first_at(rest@, sep);
                }
                out.push(to_vec(rest));
                proof {
                    assert(views(out@) =~= views(before) + seq![rest@]);
                }
                return out;
            },
            Some(i) => {
                let piece = vstd::slice::slice_subrange(rest, 0, i);
                out.push(to_vec(piece));
                proof {
                    assert(piece@ =~= rest@.take(i as int));
                    assert(rest@.skip(i + 1) =~= cs@.skip(start + i + 1));
                    assert(views(out@) =~= views(before) + seq![piece@]);
                    assert(views(out@) + split_on(cs@.skip(start + i + 1), sep) =~= views(before)
                        + (seq![piece@] + split_on(cs@.skip(start + i + 1), sep)));
                }
                start = start + i + 1;
            },
        }
    }
}

/// A copy of the characters.
pub fn to_vec(cs: &[char]) -> (r: Vec<char>)
    ensures
        r@ == cs@,
{
    vstd::slice::slice_to_vec(cs)
}

/// An ASCII capital as its small letter; any other character as it is.
pub fn lower_of(c: char) -> (r: char)
    ensures
        r == lower_char(c),
{
    if 'A' <= c && c <= 'Z' {
        (c as u8 + 32) as char
    } else {
        c
    }
}

/// The text with its ASCII capitals made small.
pub fn to_lower(cs: &[char]) -> (r: Vec<char>)
    ensures
        r@ == lower(cs@),
{
    let mut out: Vec<char> = Vec::new();
    for i in 0..cs.len()
        invariant
            out@.len() == i,
            forall|j: int| 0 <= j < i ==> out@[j] == lower_char(cs@[j]),
    {
        out.push(lower_of(cs[i]));
    }
    assert(out@ =~= lower(cs@));
    out
}

/// Appends the characters to the string.
pub fn push_chars(out: &mut String, cs: &[char])
    ensures
        final(out)@ == old(out)@ + cs@,
{
    let ghost start = out@;
    for i in 0..cs.len()
        invariant
            out@ == start + cs@.take(i as int),
    {
        out.push(cs[i]);
        proof {
            assert(cs@.take(i as int + 1) =~= cs@.take(i as int).push(cs@[i as int]));
            assert(out@ =~= start + cs@.take(i as int + 1));
        }
    }
    assert(cs@.take(cs@.len() as int) =~= cs@);
}

/// Appends the number in decimal.
pub fn push_decimal(out: &mut String, n: u64)
    ensures
        final(out)@ == old(out)@ + decimal(n as nat),
    decreases n,
{
    let ghost start = out@;
    let d: u8 = (n % 10) as u8;
    if n >= 10 {
        push_decimal(out, n / 10);
        out.push((48u8 + d) as char);
        assert(out@ =~= start + decimal(n as nat));
    } else {
        out.push((48u8 + d) as char);
        assert(out@ =~= start + decimal(n as nat));
    }
}

/// Two texts, one after the other.
pub fn concat(a: &str, b: &str) -> (r: String)
    ensures
        r@ == a@ + b@,
{
    let mut out = string_of(&chars_of(a));
    push_chars(&mut out, &chars_of(b));
    out
}

/// Three texts, one after the other.
pub fn concat3(a: &str, b: &str, c: &str) -> (r: String)
    ensures
        r@ == a@ + b@ + c@,
{
    let mut out = concat(a, b);
    push_chars(&mut out, &chars_of(c));
    out
}

/// The number in decimal.
pub fn decimal_string(n: u64) -> (r: String)
    ensures
        r@ == decimal(n as nat),
{
    let mut out = String::new();
    push_decimal(&mut out, n);
    assert(out@ =~= decimal(n as nat));
    out
}

/// How many bytes the character takes in UTF-8.
pub fn width_of(c: char) -> (r: usize)
    ensures
        r == char_width(c),
        1 <= r <= 4,
{
    let v = c as u32;
    if v <= 0x7f {
        1
    } else if v <= 0x7ff {
        2
    } else if v <= 0xffff {
        3
    } else {
        4
    }
}

/// Does the text take at most `max` bytes in UTF-8?
pub fn fits_in(cs: &[char], max: usize) -> (r: bool)
    ensures
        r == (byte_len(cs@) <= max),
{
    fit_count(cs, max) == cs.len()
}

/// How many characters of the text fit into `max` bytes.
fn fit_count(cs: &[char], max: usize) -> (r: usize)
    ensures
        r <= cs@.len(),
        byte_len(cs@.take(r as int)) <= max,
        r < cs@.len() ==> byte_len(cs@.take(r + 1)) > max,
        r == cs@.len() <==> byte_len(cs@) <= max,
{
    let mut used: usize = 0;
    let mut i: usize = 0;
    while i < cs.len()
        invariant
            i <= cs@.len(),
            used == byte_len(cs@.take(i as int)),
            used <= max,
        decreases cs@.len() - i,
    {
        proof {
            assert(cs@.take(i + 1).drop_last() =~= cs@.take(i as int));
        }
        let w = width_of(cs[i]);
        if w > max - used {
            proof {
                lemma_byte_len_take(cs@, i + 1);
            }
            return i;
        }
        used = used + w;
        i = i + 1;
    }
    assert(cs@.take(i as int) =~= cs@);
    i
}

/// The longest beginning of the text that fits into `max` bytes.
pub fn fit_to(cs: &[char], max: usize) -> (r: &[char])
    ensures
        r@ == fit(cs@, max as nat),
{
    let n = fit_count(cs, max);
    proof {
        lemma_fit_is(cs@, max as nat, n as int);
        assert(cs@.subrange(0, n as int) =~= cs@.take(n as int));
    }
    vstd::slice::slice_subrange(cs, 0, n)
}

/// How many bytes the text takes in UTF-8, `cap` where it takes more.
pub fn byte_len_upto(cs: &[char], cap: usize) -> (r: usize)
    ensures
        r == if byte_len(cs@) <= cap {
            byte_len(cs@)
        } else {
            cap as nat
        },
{
    let mut used: usize = 0;
    let mut i: usize = 0;
    while i < cs.len()
        invariant
            i <= cs@.len(),
            used == byte_len(cs@.take(i as int)),
            used <= cap,
        decreases cs@.len() - i,
    {
        proof {
            assert(cs@.take(i + 1).drop_last() =~= cs@.take(i as int));
        }
        let w = width_of(cs[i]);
        if w > cap - used {
            proof {
                lemma_byte_len_take(cs@, i + 1);
            }
            return cap;
        }
        used = used + w;
        i = i + 1;
    }
    assert(cs@.take(i as int) =~= cs@);
    used
}

/// A beginning of a text takes no more bytes than the text.
pub proof fn lemma_byte_len_take(s: Seq<char>, n: int)
    requires
        0 <= n <= s.len(),
    ensures
        byte_len(s.take(n)) <= byte_len(s),
    decreases s.len() - n,
{
    if n < s.len() {
        lemma_byte_len_take(s, n + 1);
        assert(s.take(n + 1).drop_last() =~= s.take(n));
    } else {
        assert(s.take(n) =~= s);
    }
}

/// Where the beginning of `n` characters fits and one more does not, it is the longest that fits.
proof fn lemma_fit_is(s: Seq<char>, max: nat, n: int)
    requires
        0 <= n <= s.len(),
        byte_len(s.take(n)) <= max,
        n < s.len() ==> byte_len(s.take(n + 1)) > max,
    ensures
        fit(s, max) == s.take(n),
    decreases s.len(),
{
    if n == s.len() {
        assert(s.take(n) =~= s);
    } else {
        lemma_byte_len_take(s, n + 1);
        let t = s.drop_last();
        assert(t.take(n) =~= s.take(n));
        if n < t.len() {
            assert(t.take(n + 1) =~= s.take(n + 1));
        }
        lemma_fit_is(t, max, n);
    }
}

/// What fits is a beginning of the text, and fits.
pub proof fn lemma_fit(s: Seq<char>, max: nat)
    ensures
        fit(s, max).is_prefix_of(s),
        byte_len(fit(s, max)) <= max,
    decreases s.len(),
{
    if s.len() > 0 && byte_len(s) > max {
        lemma_fit(s.drop_last(), max);
    }
}

/// The bytes of two texts put together.
pub proof fn lemma_byte_len_add(a: Seq<char>, b: Seq<char>)
    ensures
        byte_len(a + b) == byte_len(a) + byte_len(b),
    decreases b.len(),
{
    if b.len() == 0 {
        assert(a + b =~= a);
    } else {
        lemma_byte_len_add(a, b.drop_last());
        assert((a + b).drop_last() =~= a + b.drop_last());
    }
}

/// The control characters: the Unicode category `Cc`.
pub open spec fn is_control(c: char) -> bool {
    c as u32 <= 0x1f || 0x7f <= c as u32 <= 0x9f
}

/// Is this a control character?
pub fn control(c: char) -> (r: bool)
    ensures
        r == is_control(c),
{
    let v = c as u32;
    v <= 0x1f || (0x7f <= v && v <= 0x9f)
}

/// The characters of a string, or of no string.
pub open spec fn opt_chars(s: Option<String>) -> Option<Seq<char>> {
    match s {
        Some(s) => Some(s@),
        None => None,
    }
}

/// The number of decimal digits that [`decimal`] writes grows with the number; there is at least
/// one, and all of them are digits.
pub proof fn lemma_decimal_digits(n: nat)
    ensures
        decimal(n).len() >= 1,
        forall|i: int| 0 <= i < decimal(n).len() ==> '0' <= #[trigger] decimal(n)[i] <= '9',
    decreases n,
{
    if n >= 10 {
        lemma_decimal_digits(n / 10);
    }
}

/// A character's width is the number of its bytes.
proof fn lemma_char_width(c: char)
    ensures
        vstd::utf8::encode_scalar(c as u32).len() == char_width(c),
{
}

/// [`byte_len`] counts the bytes of the text in UTF-8.
pub proof fn law_byte_len_is_utf8(s: Seq<char>)
    ensures
        byte_len(s) == vstd::utf8::encode_utf8(s).len(),
    decreases s.len(),
{
    if s.len() > 0 {
        let rest = s.drop_first();
        law_byte_len_is_utf8(rest);
        let one = seq![s[0]];
        assert(s =~= one + rest);
        lemma_byte_len_add(one, rest);
        assert(one.drop_last() =~= Seq::empty());
        assert(byte_len(one.drop_last()) == 0);
        assert(byte_len(one) == char_width(one.last()));
        lemma_char_width(s[0]);
    }
}

} // verus!
